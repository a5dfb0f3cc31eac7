use crate::device::cli::uplink::{MESSAGE_LENGTH, Message};
use core::str::FromStr;
use vstd::prelude::*;
use vstd::string::*;
use vstd::utf8::*;

verus! {

/// nb's error of a non-blocking call, with its variants `Other` and
/// `WouldBlock`.
#[verifier::external_type_specification]
#[verifier::reject_recursive_types(E)]
pub struct ExNbError<E>(nb::Error<E>);

/// What a busy-waiting task does with the answer of a non-blocking call.
pub enum Attempt<T, E> {
    /// The peripheral is not ready: poll again at once.
    Retry,
    /// The call finished, with its value or its error.
    Ready(Result<T, E>),
}

/// Decides how a busy-waiting task goes on after a non-blocking call: a call
/// that would block is retried, anything else ends the wait.
pub fn settle<T, E>(answer: Result<T, nb::Error<E>>) -> (r: Attempt<T, E>)
    ensures
        match answer {
            Ok(v) => r matches Attempt::Ready(Ok(w)) && w == v,
            Err(nb::Error::WouldBlock) => r is Retry,
            Err(nb::Error::Other(e)) => r matches Attempt::Ready(Err(f)) && f == e,
        },
{
    match answer {
        Ok(v) => Attempt::Ready(Ok(v)),
        Err(nb::Error::WouldBlock) => Attempt::Retry,
        Err(nb::Error::Other(e)) => Attempt::Ready(Err(e)),
    }
}

/// heapless::String, a string of fixed capacity; opaque here, its bytes
/// named by [`chunk_bytes`] and by the version buffer's name.
#[verifier::external_type_specification]
#[verifier::external_body]
pub struct ExFixedString<const N: usize>(heapless::String<N>);

/// The bytes of a response chunk.
pub uninterp spec fn chunk_bytes(s: heapless::String<MESSAGE_LENGTH>) -> Seq<u8>;

/// Relies on heapless::String::from_str: the text is copied when its bytes fit
/// in the capacity, and refused otherwise.
#[verifier::external_body]
fn chunk_from_str(s: &str) -> (r: Result<Message, ()>)
    ensures
        s.spec_bytes().len() <= MESSAGE_LENGTH ==> r is Ok,
        s.spec_bytes().len() <= MESSAGE_LENGTH ==> chunk_bytes(r->Ok_0) == s.spec_bytes(),
        s.spec_bytes().len() > MESSAGE_LENGTH ==> r is Err,
{
    heapless::String::<MESSAGE_LENGTH>::from_str(s)
}

/// Whether every place where a chunk of `bytes` starts lies on a character
/// boundary, so that the text can be cut into chunks.
pub open spec fn chunk_edges_ok(bytes: Seq<u8>) -> bool {
    forall|i: int|
        0 < i < bytes.len() && i % (MESSAGE_LENGTH as int) == 0 ==> is_char_boundary(bytes, i)
}

/// `bytes` cut into chunks of [`MESSAGE_LENGTH`] bytes; the last may be
/// shorter.
pub open spec fn split_chunks(bytes: Seq<u8>) -> Seq<Seq<u8>>
    decreases bytes.len(),
{
    if bytes.len() == 0 {
        Seq::empty()
    } else if bytes.len() <= MESSAGE_LENGTH {
        seq![bytes]
    } else {
        seq![bytes.take(MESSAGE_LENGTH as int)] + split_chunks(bytes.skip(MESSAGE_LENGTH as int))
    }
}

proof fn lemma_edges_of_rest(bytes: Seq<u8>)
    requires
        valid_utf8(bytes),
        chunk_edges_ok(bytes),
        bytes.len() > MESSAGE_LENGTH,
    ensures
        valid_utf8(bytes.skip(MESSAGE_LENGTH as int)),
        chunk_edges_ok(bytes.skip(MESSAGE_LENGTH as int)),
{
    let k = MESSAGE_LENGTH as int;
    let rest = bytes.skip(k);
    assert(is_char_boundary(bytes, k));
    valid_utf8_split(bytes, k);
    assert(rest =~= bytes.subrange(k, bytes.len() as int));
    assert forall|i: int| 0 < i < rest.len() && i % k == 0 implies is_char_boundary(rest, i) by {
        assert((i + k) % k == 0);
        assert(is_char_boundary(bytes, i + k));
        is_char_boundary_iff_not_is_continuation_byte(bytes, i + k);
        is_char_boundary_iff_not_is_continuation_byte(rest, i);
    }
}

/// Hands out a text in chunks of at most [`MESSAGE_LENGTH`] bytes, in order.
pub struct StringIter<'a> {
    raw: &'a str,
}

impl<'a> StringIter<'a> {
    /// The bytes not handed out yet.
    pub closed spec fn rest(&self) -> Seq<u8> {
        self.raw.spec_bytes()
    }

    pub closed spec fn wf(&self) -> bool {
        chunk_edges_ok(self.raw.spec_bytes())
    }

    pub fn from(value: &'a str) -> (r: Self)
        requires
            chunk_edges_ok(value.spec_bytes()),
        ensures
            r.wf(),
            r.rest() == value.spec_bytes(),
    {
        StringIter { raw: value }
    }

    /// The next chunk, or `None` once the text is used up.
    pub fn next(&mut self) -> (r: Option<Result<Message, ()>>)
        requires
            old(self).wf(),
        ensures
            final(self).wf(),
            old(self).rest().len() == 0 ==> r is None && final(self).rest() == old(self).rest(),
            old(self).rest().len() > 0 ==> r is Some && r->Some_0 is Ok,
            old(self).rest().len() > 0 ==> final(self).rest().len() < old(self).rest().len(),
            old(self).rest().len() > 0 ==> split_chunks(old(self).rest()) == seq![
                chunk_bytes(r->Some_0->Ok_0),
            ] + split_chunks(final(self).rest()),
    {
        broadcast use encode_utf8_valid_utf8, is_char_boundary_start_end_of_seq;

        let len = self.raw.as_bytes().len();
        if len == 0 {
            return None;
        }
        let ghost bytes = self.raw.spec_bytes();
        assert(valid_utf8(bytes));
        let take: usize = if len < MESSAGE_LENGTH {
            len
        } else {
            MESSAGE_LENGTH
        };
        if take < len {
            assert(take as int % (MESSAGE_LENGTH as int) == 0);
            proof {
                lemma_edges_of_rest(bytes);
            }
        } else {
            assert(is_char_boundary(bytes, bytes.len() as int));
        }
        let (head, tail) = self.raw.split_at(take);
        self.raw = tail;
        let chunk = chunk_from_str(head);
        proof {
            if take < len {
                assert(tail.spec_bytes() =~= bytes.skip(MESSAGE_LENGTH as int));
                assert(head.spec_bytes() =~= bytes.take(MESSAGE_LENGTH as int));
            } else {
                assert(head.spec_bytes() =~= bytes);
                assert(tail.spec_bytes() =~= Seq::<u8>::empty());
                assert(split_chunks(tail.spec_bytes()) =~= Seq::<Seq<u8>>::empty());
            }
        }
        Some(chunk)
    }
}

/// Whether `text` can be cut into chunks of [`MESSAGE_LENGTH`] bytes without
/// splitting a character.
pub fn chunk_edges_valid(text: &str) -> (r: bool)
    ensures
        r == chunk_edges_ok(text.spec_bytes()),
{
    let len = text.as_bytes().len();
    let mut i: usize = MESSAGE_LENGTH;
    while i < len
        invariant
            len == text.spec_bytes().len(),
            i >= MESSAGE_LENGTH,
            i <= len + MESSAGE_LENGTH,
            i % MESSAGE_LENGTH == 0,
            forall|j: int|
                0 < j < i && j < len && j % (MESSAGE_LENGTH as int) == 0 ==> is_char_boundary(
                    text.spec_bytes(),
                    j,
                ),
        decreases len + MESSAGE_LENGTH - i,
    {
        if !text.is_char_boundary(i) {
            return false;
        }
        if i > usize::MAX - MESSAGE_LENGTH {
            assert forall|j: int|
                0 < j < len && j % (MESSAGE_LENGTH as int) == 0 implies is_char_boundary(
                text.spec_bytes(),
                j,
            ) by {
                if j > i {
                    assert(j >= i + MESSAGE_LENGTH) by (nonlinear_arith)
                        requires
                            j > i,
                            j % 32 == 0,
                            i % 32 == 0,
                    ;
                }
            }
            return true;
        }
        proof {
            assert forall|j: int|
                0 < j < i + MESSAGE_LENGTH && j < len && j % (MESSAGE_LENGTH as int) == 0 implies is_char_boundary(
                text.spec_bytes(),
                j,
            ) by {
                if j > i {
                    assert(j >= i + MESSAGE_LENGTH) by (nonlinear_arith)
                        requires
                            j > i,
                            j % 32 == 0,
                            i % 32 == 0,
                    ;
                }
            }
        }
        i = i + MESSAGE_LENGTH;
    }
    true
}

/// The bytes of each chunk, in order.
pub open spec fn chunks_bytes(chunks: Seq<Message>) -> Seq<Seq<u8>> {
    chunks.map_values(|c: Message| chunk_bytes(c))
}

/// `text` cut into chunks of at most [`MESSAGE_LENGTH`] bytes, in order.
pub fn split_text(text: &str) -> (r: Vec<Message>)
    requires
        chunk_edges_ok(text.spec_bytes()),
    ensures
        chunks_bytes(r@) == split_chunks(text.spec_bytes()),
{
    let mut it = StringIter::from(text);
    let mut out: Vec<Message> = Vec::new();
    loop
        invariant
            it.wf(),
            chunks_bytes(out@) + split_chunks(it.rest()) == split_chunks(text.spec_bytes()),
        ensures
            chunks_bytes(out@) == split_chunks(text.spec_bytes()),
        decreases it.rest().len(),
    {
        let ghost before = out@;
        let ghost rest = it.rest();
        match it.next() {
            Some(Ok(chunk)) => {
                out.push(chunk);
                proof {
                    assert(chunks_bytes(out@) =~= chunks_bytes(before).push(chunk_bytes(chunk)));
                    assert(chunks_bytes(out@) + split_chunks(it.rest()) =~= chunks_bytes(before)
                        + split_chunks(rest));
                }
            },
            _ => {
                proof {
                    assert(rest.len() == 0);
                    assert(split_chunks(rest) =~= Seq::<Seq<u8>>::empty());
                    assert(chunks_bytes(out@) + split_chunks(rest) =~= chunks_bytes(out@));
                }
                break;
            },
        }
    }
    out
}

} // verus!
