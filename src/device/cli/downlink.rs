use super::command::{Command, command_of};
use vstd::prelude::*;

verus! {

/// Capacity of the mailbox that carries decoded commands to the executor.
pub const MAILBOX_CAPACITY: usize = 16;

/// Number of bytes that the downlink holds while waiting for a delimiter.
pub const IN_BUFFER_SIZE: usize = 8;

/// The byte that terminates a command on the wire (`;`).
pub const DELIMITER: u8 = 0x3b;

/// heapless::Vec, a vector of fixed capacity; opaque here, its contents
/// named by [`buffered`].
#[verifier::external_type_specification]
#[verifier::external_body]
#[verifier::reject_recursive_types(T)]
pub struct ExFixedVec<T, const N: usize>(heapless::Vec<T, N>);

/// The bytes held by a fixed-capacity input buffer, oldest first.
pub uninterp spec fn buffered(v: heapless::Vec<u8, IN_BUFFER_SIZE>) -> Seq<u8>;

/// Relies on heapless::Vec::new: a new vector holds nothing.
#[verifier::external_body]
fn buffer_new() -> (r: heapless::Vec<u8, IN_BUFFER_SIZE>)
    ensures
        buffered(r) == Seq::<u8>::empty(),
{
    heapless::Vec::new()
}

/// Relies on heapless::Vec::push: the byte is appended when the length is
/// under the capacity, and handed back otherwise.
#[verifier::external_body]
fn buffer_push(v: &mut heapless::Vec<u8, IN_BUFFER_SIZE>, byte: u8) -> (r: Result<(), u8>)
    ensures
        buffered(*old(v)).len() < IN_BUFFER_SIZE ==> r is Ok,
        buffered(*old(v)).len() < IN_BUFFER_SIZE ==> buffered(*final(v)) == buffered(*old(v)).push(byte),
        buffered(*old(v)).len() >= IN_BUFFER_SIZE ==> r is Err && r->Err_0 == byte,
        buffered(*old(v)).len() >= IN_BUFFER_SIZE ==> buffered(*final(v)) == buffered(*old(v)),
{
    v.push(byte)
}

/// Relies on heapless::Vec::clear: the vector is left empty.
#[verifier::external_body]
fn buffer_clear(v: &mut heapless::Vec<u8, IN_BUFFER_SIZE>)
    ensures
        buffered(*final(v)) == Seq::<u8>::empty(),
{
    v.clear()
}

/// Relies on heapless::Vec::is_full: the length equals the capacity.
#[verifier::external_body]
fn buffer_is_full(v: &heapless::Vec<u8, IN_BUFFER_SIZE>) -> (r: bool)
    ensures
        r == (buffered(*v).len() == IN_BUFFER_SIZE),
{
    v.is_full()
}

/// Relies on heapless::Vec::as_slice: the slice holds the buffered bytes.
#[verifier::external_body]
fn buffer_bytes(v: &heapless::Vec<u8, IN_BUFFER_SIZE>) -> (r: &[u8])
    ensures
        r@ == buffered(*v),
{
    v.as_slice()
}

/// What the input buffer holds after one byte that is not the delimiter: a
/// full buffer is emptied before the byte is stored.
pub open spec fn store_byte(held: Seq<u8>, byte: u8) -> Seq<u8> {
    if held.len() >= IN_BUFFER_SIZE {
        seq![byte]
    } else {
        held.push(byte)
    }
}

/// The buffer contents and the command decoded after one byte.
pub open spec fn feed_step(held: Seq<u8>, byte: u8) -> (Seq<u8>, Option<Command>) {
    if byte == DELIMITER {
        (Seq::empty(), command_of(held))
    } else {
        (store_byte(held, byte), None)
    }
}

/// The buffer contents and the commands decoded, in order, after a stream of
/// bytes.
pub open spec fn feed_stream(held: Seq<u8>, bytes: Seq<u8>) -> (Seq<u8>, Seq<Command>)
    decreases bytes.len(),
{
    if bytes.len() == 0 {
        (held, Seq::empty())
    } else {
        let before = feed_stream(held, bytes.drop_last());
        let (after, cmd) = feed_step(before.0, bytes.last());
        match cmd {
            Some(c) => (after, before.1.push(c)),
            None => (after, before.1),
        }
    }
}

/// The commands decoded from `bytes`, none if `cmd` is `None`.
pub open spec fn optional_command(cmd: Option<Command>) -> Seq<Command> {
    match cmd {
        Some(c) => seq![c],
        None => Seq::empty(),
    }
}

/// Whether `bytes` holds no delimiter.
pub open spec fn undelimited(bytes: Seq<u8>) -> bool {
    forall|i: int| 0 <= i < bytes.len() ==> bytes[i] != DELIMITER
}

proof fn lemma_stream_append(held: Seq<u8>, a: Seq<u8>, b: Seq<u8>)
    ensures
        feed_stream(held, a + b).0 == feed_stream(feed_stream(held, a).0, b).0,
        feed_stream(held, a + b).1 == feed_stream(held, a).1 + feed_stream(
            feed_stream(held, a).0,
            b,
        ).1,
    decreases b.len(),
{
    if b.len() == 0 {
        assert(a + b =~= a);
        assert(feed_stream(held, a).1 + Seq::<Command>::empty() =~= feed_stream(held, a).1);
    } else {
        lemma_stream_append(held, a, b.drop_last());
        assert((a + b).drop_last() =~= a + b.drop_last());
        assert((a + b).last() == b.last());
        let mid = feed_stream(held, a);
        let rest = feed_stream(mid.0, b.drop_last());
        let (after, cmd) = feed_step(rest.0, b.last());
        match cmd {
            Some(c) => {
                assert(mid.1 + rest.1.push(c) =~= (mid.1 + rest.1).push(c));
            },
            None => {},
        }
    }
}

proof fn lemma_stream_stores(held: Seq<u8>, bytes: Seq<u8>)
    requires
        undelimited(bytes),
        held.len() + bytes.len() <= IN_BUFFER_SIZE,
    ensures
        feed_stream(held, bytes) == (held + bytes, Seq::<Command>::empty()),
    decreases bytes.len(),
{
    if bytes.len() == 0 {
        assert(held + bytes =~= held);
    } else {
        let init = bytes.drop_last();
        assert(undelimited(init)) by {
            assert forall|i: int| 0 <= i < init.len() implies init[i] != DELIMITER by {
                assert(init[i] == bytes[i]);
            }
        }
        lemma_stream_stores(held, init);
        assert(bytes.last() == bytes[bytes.len() - 1]);
        assert((held + init).push(bytes.last()) =~= held + bytes);
    }
}

proof fn lemma_stream_delimiter(held: Seq<u8>)
    ensures
        feed_stream(held, seq![DELIMITER]) == (
            Seq::<u8>::empty(),
            optional_command(command_of(held)),
        ),
{
    let delim = seq![DELIMITER];
    assert(delim.drop_last() =~= Seq::<u8>::empty());
    assert(delim.last() == DELIMITER);
    assert(feed_stream(held, Seq::<u8>::empty()) == (held, Seq::<Command>::empty()));
    match command_of(held) {
        Some(c) => {
            assert(Seq::<Command>::empty().push(c) =~= seq![c]);
        },
        None => {},
    }
}

/// A run of bytes without a delimiter that fills the input buffer of a
/// parser that held nothing yields no command; the parser then decodes the
/// next command as if it had just been created.
pub proof fn lemma_overflow_recovers(filler: Seq<u8>, text: Seq<u8>)
    requires
        filler.len() == IN_BUFFER_SIZE,
        undelimited(filler),
        1 <= text.len() <= IN_BUFFER_SIZE,
        undelimited(text),
    ensures
        feed_stream(Seq::empty(), filler).1 == Seq::<Command>::empty(),
        feed_stream(Seq::empty(), filler + text.push(DELIMITER)) == (
            Seq::<u8>::empty(),
            optional_command(command_of(text)),
        ),
        feed_stream(Seq::empty(), text.push(DELIMITER)) == (
            Seq::<u8>::empty(),
            optional_command(command_of(text)),
        ),
{
    let empty = Seq::<u8>::empty();
    lemma_stream_stores(empty, filler);
    assert(empty + filler =~= filler);
    let first = seq![text[0]];
    let more = text.drop_first();
    assert(undelimited(more)) by {
        assert forall|i: int| 0 <= i < more.len() implies more[i] != DELIMITER by {
            assert(more[i] == text[i + 1]);
        }
    }
    // The first byte of `text` finds the buffer full and empties it.
    assert(first.drop_last() =~= Seq::<u8>::empty());
    assert(feed_stream(filler, first.drop_last()) == (filler, Seq::<Command>::empty()));
    assert(feed_stream(filler, first) == (first, Seq::<Command>::empty()));
    lemma_stream_stores(first, more);
    assert(first + more =~= text);
    lemma_stream_append(filler, first, more);
    // The delimiter decodes what the buffer holds.
    let delim = seq![DELIMITER];
    lemma_stream_delimiter(text);
    lemma_stream_append(filler, text, delim);
    assert(text + delim =~= text.push(DELIMITER));
    lemma_stream_append(empty, filler, text.push(DELIMITER));
    assert(Seq::<Command>::empty() + optional_command(command_of(text)) =~= optional_command(
        command_of(text),
    ));
    assert(feed_stream(filler, text.push(DELIMITER)).1 =~= optional_command(command_of(text)));
    assert(Seq::<Command>::empty() + Seq::<Command>::empty() =~= Seq::<Command>::empty());
    lemma_stream_stores(empty, text);
    assert(empty + text =~= text);
    lemma_stream_append(empty, text, delim);
}

/// Turns the bytes of the serial downlink into commands. Each command is
/// terminated by [`DELIMITER`]; unknown text yields nothing, and bytes that
/// overflow the input buffer before a delimiter arrives are discarded.
pub struct CommandParser {
    buffer_in: heapless::Vec<u8, IN_BUFFER_SIZE>,
}

impl CommandParser {
    /// The bytes waiting for a delimiter.
    pub closed spec fn held(&self) -> Seq<u8> {
        buffered(self.buffer_in)
    }

    pub closed spec fn wf(&self) -> bool {
        buffered(self.buffer_in).len() <= IN_BUFFER_SIZE
    }

    pub fn new() -> (r: CommandParser)
        ensures
            r.wf(),
            r.held() == Seq::<u8>::empty(),
    {
        CommandParser { buffer_in: buffer_new() }
    }

    /// Takes one byte off the wire, and returns the command that it completes.
    pub fn feed(&mut self, byte: u8) -> (r: Option<Command>)
        requires
            old(self).wf(),
        ensures
            final(self).wf(),
            (final(self).held(), r) == feed_step(old(self).held(), byte),
    {
        if byte == DELIMITER {
            let cmd = match Command::parse(buffer_bytes(&self.buffer_in)) {
                Ok(c) => Some(c),
                Err(_) => None,
            };
            buffer_clear(&mut self.buffer_in);
            cmd
        } else {
            if buffer_is_full(&self.buffer_in) {
                buffer_clear(&mut self.buffer_in);
            }
            // The buffer has room now, so the byte is stored.
            let stored = buffer_push(&mut self.buffer_in, byte);
            assert(stored is Ok);
            assert(buffered(self.buffer_in) =~= store_byte(old(self).held(), byte));
            None
        }
    }

    /// Takes a run of bytes off the wire, and returns the commands that they
    /// complete, in order.
    pub fn feed_all(&mut self, bytes: &[u8]) -> (r: Vec<Command>)
        requires
            old(self).wf(),
        ensures
            final(self).wf(),
            (final(self).held(), r@) == feed_stream(old(self).held(), bytes@),
    {
        let mut out: Vec<Command> = Vec::new();
        let mut i: usize = 0;
        while i < bytes.len()
            invariant
                self.wf(),
                0 <= i <= bytes.len(),
                (self.held(), out@) == feed_stream(old(self).held(), bytes@.subrange(0, i as int)),
            decreases bytes.len() - i,
        {
            let cmd = self.feed(bytes[i]);
            proof {
                let s = bytes@.subrange(0, i as int + 1);
                assert(s.drop_last() =~= bytes@.subrange(0, i as int));
                assert(s.last() == bytes@[i as int]);
            }
            match cmd {
                Some(c) => out.push(c),
                None => {},
            }
            i = i + 1;
        }
        assert(bytes@.subrange(0, bytes@.len() as int) =~= bytes@);
        out
    }
}

} // verus!
