//! Streamed bytes cut into lines: each line is handed on as soon as its
//! newline arrives, decoded and trimmed.

use vstd::prelude::*;

use crate::text::{trim_spec, trim_string};

verus! {

/// The text that bytes decode to when they are valid UTF-8
/// (`std::str::from_utf8`); nothing when they are not.
pub uninterp spec fn utf8_decoding(bytes: Seq<u8>) -> Option<Seq<char>>;

/// The UTF-8 bytes of one character: one byte below U+0080, then two,
/// three or four, a lead byte and continuation bytes of six bits each.
pub open spec fn utf8_char_bytes(c: char) -> Seq<u8> {
    let n = c as u32;
    if n < 0x80 {
        seq![n as u8]
    } else if n < 0x800 {
        seq![(0xc0 + n / 64) as u8, (0x80 + n % 64) as u8]
    } else if n < 0x10000 {
        seq![(0xe0 + n / 4096) as u8, (0x80 + (n / 64) % 64) as u8, (0x80 + n % 64) as u8]
    } else {
        seq![
            (0xf0 + n / 262144) as u8,
            (0x80 + (n / 4096) % 64) as u8,
            (0x80 + (n / 64) % 64) as u8,
            (0x80 + n % 64) as u8,
        ]
    }
}

/// The UTF-8 encoding of text: the bytes of its characters, in order.
pub open spec fn utf8_encoding(text: Seq<char>) -> Seq<u8>
    decreases text.len(),
{
    if text.len() == 0 {
        Seq::<u8>::empty()
    } else {
        utf8_encoding(text.drop_last()) + utf8_char_bytes(text.last())
    }
}

/// Decodes bytes that should be UTF-8 (`std::str::from_utf8`).  The
/// encoding of some text is valid UTF-8 and decodes back to that text.
#[verifier::external_body]
fn decode_utf8(bytes: &[u8]) -> (r: Option<String>)
    ensures
        match r {
            Option::Some(s) => utf8_decoding(bytes@) == Option::Some(s@),
            Option::None => utf8_decoding(bytes@) == Option::<Seq<char>>::None,
        },
        forall|text: Seq<char>|
            #[trigger] utf8_encoding(text) == bytes@ ==> r is Some && r->0@ == text,
{
    match std::str::from_utf8(bytes) {
        Ok(s) => Some(s.to_string()),
        Err(_) => None,
    }
}

/// The pieces of `bytes` between newlines: always at least one, the last
/// being what follows the last newline.
pub open spec fn split_lines(bytes: Seq<u8>) -> Seq<Seq<u8>>
    decreases bytes.len(),
{
    if bytes.len() == 0 {
        seq![Seq::<u8>::empty()]
    } else {
        let init = split_lines(bytes.drop_last());
        if bytes.last() == 10u8 {
            init.push(Seq::<u8>::empty())
        } else {
            init.update(init.len() - 1, init.last().push(bytes.last()))
        }
    }
}

proof fn lemma_split_lines_len(bytes: Seq<u8>)
    ensures
        split_lines(bytes).len() >= 1,
    decreases bytes.len(),
{
    if bytes.len() > 0 {
        lemma_split_lines_len(bytes.drop_last());
    }
}

/// Pieces joined back together with newlines between them.
pub open spec fn join_lines(pieces: Seq<Seq<u8>>) -> Seq<u8>
    decreases pieces.len(),
{
    if pieces.len() == 0 {
        Seq::<u8>::empty()
    } else if pieces.len() == 1 {
        pieces[0]
    } else {
        join_lines(pieces.drop_last()).push(10u8) + pieces.last()
    }
}

/// Nothing is lost when a stream is cut into lines: the lines handed on,
/// each followed by its newline, and then what remains, are the bytes that
/// arrived.
pub proof fn law_lines_give_back_the_stream(bytes: Seq<u8>)
    ensures
        join_lines(split_lines(bytes)) == bytes,
    decreases bytes.len(),
{
    if bytes.len() > 0 {
        let t = bytes.drop_last();
        let init = split_lines(t);
        law_lines_give_back_the_stream(t);
        lemma_split_lines_len(t);
        let p = split_lines(bytes);
        assert(bytes == t.push(bytes.last()));
        if bytes.last() == 10u8 {
            assert(p.drop_last() == init);
            assert(join_lines(p) == join_lines(init).push(10u8) + Seq::<u8>::empty());
        } else {
            let last = init.last().push(bytes.last());
            assert(p == init.drop_last().push(last));
            if init.len() == 1 {
                assert(join_lines(p) == last);
                assert(join_lines(init) == init[0]);
            } else {
                assert(p.drop_last() == init.drop_last());
                assert(join_lines(p) == join_lines(init.drop_last()).push(10u8) + last);
                assert(join_lines(init) == join_lines(init.drop_last()).push(10u8) + init.last());
                assert((join_lines(init.drop_last()).push(10u8) + init.last()).push(bytes.last())
                    == join_lines(init.drop_last()).push(10u8) + last);
            }
        }
    }
}

/// The text of a line: decoded and trimmed; nothing when it is not valid
/// UTF-8.
pub open spec fn line_text(line: Seq<u8>) -> Option<Seq<char>> {
    match utf8_decoding(line) {
        Option::Some(t) => Option::Some(trim_spec(t)),
        Option::None => Option::None,
    }
}

/// Bytes that have arrived after the last newline.
#[derive(Debug)]
pub struct LineBuffer {
    buffer: Vec<u8>,
}

impl View for LineBuffer {
    type V = Seq<u8>;

    closed spec fn view(&self) -> Seq<u8> {
        self.buffer@
    }
}

/// Whether bytes hold no newline.
pub open spec fn no_newline(bytes: Seq<u8>) -> bool {
    forall|i: int| 0 <= i < bytes.len() ==> bytes[i] != 10u8
}

/// No piece of a split holds a newline.
proof fn lemma_pieces_have_no_newline(bytes: Seq<u8>)
    ensures
        forall|k: int| 0 <= k < split_lines(bytes).len() ==> no_newline(#[trigger] split_lines(bytes)[k]),
    decreases bytes.len(),
{
    if bytes.len() > 0 {
        let init = split_lines(bytes.drop_last());
        lemma_pieces_have_no_newline(bytes.drop_last());
        lemma_split_lines_len(bytes.drop_last());
        let p = split_lines(bytes);
        if bytes.last() != 10u8 {
            assert forall|k: int| 0 <= k < p.len() implies no_newline(#[trigger] p[k]) by {
                if k == p.len() - 1 {
                    assert(no_newline(init.last()));
                    assert(p[k] == init.last().push(bytes.last()));
                    assert forall|i: int| 0 <= i < p[k].len() implies p[k][i] != 10u8 by {
                        if i < init.last().len() {
                            assert(p[k][i] == init.last()[i]);
                            assert(init.last() == init[init.len() - 1]);
                        }
                    }
                } else {
                    assert(p[k] == init[k]);
                }
            }
        } else {
            assert forall|k: int| 0 <= k < p.len() implies no_newline(#[trigger] p[k]) by {
                if k < p.len() - 1 {
                    assert(p[k] == init[k]);
                }
            }
        }
    }
}

impl LineBuffer {
    /// The buffer holds no newline: it is what follows the last one.
    #[verifier::type_invariant]
    spec fn holds_no_newline(self) -> bool {
        no_newline(self.buffer@)
    }

    /// An empty buffer.
    pub fn new() -> (r: LineBuffer)
        ensures
            r@ == Seq::<u8>::empty(),
    {
        LineBuffer { buffer: Vec::new() }
    }

    /// Adds a chunk of the stream and takes out the lines it completes, in
    /// order and without their newlines; what follows the last newline stays.
    pub fn push(&mut self, chunk: &[u8]) -> (r: Vec<Vec<u8>>)
        ensures
            r@.map_values(|l: Vec<u8>| l@) == split_lines(old(self)@ + chunk@).drop_last(),
            final(self)@ == split_lines(old(self)@ + chunk@).last(),
    {
        proof {
            use_type_invariant(&*self);
        }
        let ghost start = self.buffer@;
        let mut lines: Vec<Vec<u8>> = Vec::new();
        let mut current: Vec<u8> = Vec::new();
        std::mem::swap(&mut current, &mut self.buffer);
        // the buffer holds no newline, so it is the last piece of itself
        proof {
            lemma_no_newline(start);
        }
        let n = chunk.len();
        for i in 0..n
            invariant
                n == chunk@.len(),
                split_lines(start) == seq![start],
                lines@.map_values(|l: Vec<u8>| l@) == split_lines(start + chunk@.take(i as int))
                    .drop_last(),
                current@ == split_lines(start + chunk@.take(i as int)).last(),
        {
            let ghost seen = start + chunk@.take(i as int);
            let ghost next = start + chunk@.take(i + 1);
            assert(next.drop_last() =~= seen);
            assert(next.last() == chunk@[i as int]);
            proof {
                lemma_split_lines_len(seen);
            }
            let b = chunk[i];
            if b == 10u8 {
                let mut done: Vec<u8> = Vec::new();
                std::mem::swap(&mut done, &mut current);
                let ghost before = lines@;
                lines.push(done);
                proof {
                    assert(lines@.map_values(|l: Vec<u8>| l@) =~= before.map_values(
                        |l: Vec<u8>| l@,
                    ).push(done@));
                    assert(split_lines(next) == split_lines(seen).push(Seq::<u8>::empty()));
                    assert(split_lines(next).drop_last() =~= split_lines(seen));
                    assert(split_lines(seen) =~= split_lines(seen).drop_last().push(
                        split_lines(seen).last(),
                    ));
                }
            } else {
                current.push(b);
                proof {
                    let p = split_lines(seen);
                    assert(split_lines(next) == p.update(p.len() - 1, p.last().push(b)));
                    assert(split_lines(next).drop_last() =~= p.drop_last());
                }
            }
        }
        assert(start + chunk@.take(n as int) =~= start + chunk@);
        proof {
            lemma_pieces_have_no_newline(start + chunk@);
            lemma_split_lines_len(start + chunk@);
            let p = split_lines(start + chunk@);
            assert(p.last() == p[p.len() - 1]);
        }
        self.buffer = current;
        lines
    }

    /// What remains after the last newline, once the stream has ended.
    pub fn into_rest(self) -> (r: Vec<u8>)
        ensures
            r@ == self@,
    {
        self.buffer
    }
}

/// Bytes without a newline form a single piece.
proof fn lemma_no_newline(bytes: Seq<u8>)
    requires
        forall|i: int| 0 <= i < bytes.len() ==> bytes[i] != 10u8,
    ensures
        split_lines(bytes) == seq![bytes],
    decreases bytes.len(),
{
    if bytes.len() == 0 {
        assert(bytes =~= Seq::<u8>::empty());
    } else {
        lemma_no_newline(bytes.drop_last());
        assert(bytes.drop_last().push(bytes.last()) =~= bytes);
    }
}

/// The text of a line: decoded, then trimmed (`str::trim`).  A line that
/// is the encoding of some text gives that text, trimmed.
pub fn line_text_of(line: &[u8]) -> (r: Option<String>)
    ensures
        match r {
            Option::Some(s) => line_text(line@) == Option::Some(s@),
            Option::None => line_text(line@) == Option::<Seq<char>>::None,
        },
        forall|text: Seq<char>|
            #[trigger] utf8_encoding(text) == line@ ==> r is Some && r->0@ == trim_spec(text),
{
    match decode_utf8(line) {
        Some(text) => Some(trim_string(text.as_str())),
        None => None,
    }
}

/// A stream of byte chunks, and the bytes of it that follow the last
/// newline seen.
#[derive(Debug)]
pub struct LineStream<S> {
    pub buffer: LineBuffer,
    pub stream: S,
}

impl<S> LineStream<S> {
    /// Lines of the given stream, none seen yet.
    pub fn new(stream: S) -> (r: LineStream<S>)
        ensures
            r.buffer@ == Seq::<u8>::empty(),
            r.stream == stream,
    {
        LineStream { buffer: LineBuffer::new(), stream }
    }
}

} // verus!
