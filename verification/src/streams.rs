//! The stream reader: takes what the connection's readable streams hold and
//! hands it on as text, one item per read.
//!
//! The reader is given the streams that are readable now. For each of them,
//! in the order given, it asks for reads until the connection has no more
//! for that stream, then turns to the next one. The caller makes the reads
//! and reports each to [`read_streams`].

use vstd::prelude::*;
use vstd::utf8::{
    decode_utf8, encode_utf8, encode_utf8_decode_utf8, encode_utf8_valid_utf8, valid_utf8,
};
use crate::driver::{Role, STREAM_ID};
use crate::inbound::RECV_BUFFER_SIZE;

verus! {

/// One piece of stream data, ready for the application.
#[derive(Debug, PartialEq, Eq)]
pub struct StreamItem {
    /// The stream it was read from.
    pub stream_id: u64,
    /// The bytes that were read, decoded as UTF-8.
    pub text: String,
    /// True when the stream ends with this piece.
    pub fin: bool,
}

/// What the connection answered to a stream read.
#[derive(Debug, PartialEq, Eq)]
pub enum StreamRead {
    /// It handed out `bytes`; `fin` tells whether the stream ends with them.
    Data { bytes: Vec<u8>, fin: bool },
    /// It has nothing more for this stream, or refused the read.
    Exhausted,
}

/// What the reader asks of its caller.
#[derive(Clone, Copy, Debug, PartialEq, Eq)]
pub enum StreamStep {
    /// Read from stream `stream_id` into a buffer of `capacity` bytes.
    Receive { stream_id: u64, capacity: usize },
    /// Every stream has been drained.
    Finished,
}

/// A stream handed out bytes that are not UTF-8.
#[derive(Clone, Copy, Debug, PartialEq, Eq)]
pub struct InvalidText {
    /// The stream the bytes came from.
    pub stream_id: u64,
}

/// The streams still to be drained, the one being read first.
pub struct StreamReader {
    ids: Vec<u64>,
    cursor: usize,
}

impl View for StreamReader {
    type V = Seq<u64>;

    closed spec fn view(&self) -> Seq<u64> {
        self.ids@.skip(self.cursor as int)
    }
}

/// The step of a reader that still has `remaining` to drain.
pub open spec fn stream_step(remaining: Seq<u64>) -> StreamStep {
    if remaining.len() > 0 {
        StreamStep::Receive { stream_id: remaining[0], capacity: RECV_BUFFER_SIZE }
    } else {
        StreamStep::Finished
    }
}

/// What is left to drain once the stream being read is exhausted.
pub open spec fn after_exhausted(remaining: Seq<u64>) -> Seq<u64> {
    if remaining.len() > 0 {
        remaining.drop_first()
    } else {
        remaining
    }
}

/// An answer to a stream read, as plain values.
pub enum ReadView {
    Data { bytes: Seq<u8>, fin: bool },
    Exhausted,
}

/// An item, as plain values.
pub struct ItemView {
    pub stream_id: u64,
    pub text: Seq<char>,
    pub fin: bool,
}

impl View for StreamRead {
    type V = ReadView;

    open spec fn view(&self) -> ReadView {
        match *self {
            StreamRead::Data { bytes, fin } => ReadView::Data { bytes: bytes@, fin },
            StreamRead::Exhausted => ReadView::Exhausted,
        }
    }
}

impl View for StreamItem {
    type V = ItemView;

    open spec fn view(&self) -> ItemView {
        ItemView { stream_id: self.stream_id, text: self.text@, fin: self.fin }
    }
}

/// The items that a reader with `remaining` to drain delivers when its
/// reads are answered by `reads`, in order. Every piece of data is one item
/// of the stream being read; an exhausted stream gives way to the next; the
/// drain is over when no stream is left, and it breaks off at data that is
/// not UTF-8.
pub open spec fn drained(remaining: Seq<u64>, reads: Seq<ReadView>) -> Seq<ItemView>
    decreases reads.len(),
{
    if reads.len() == 0 || remaining.len() == 0 {
        seq![]
    } else {
        match reads[0] {
            ReadView::Exhausted => drained(remaining.drop_first(), reads.drop_first()),
            ReadView::Data { bytes, fin } => if valid_utf8(bytes) {
                seq![ItemView { stream_id: remaining[0], text: decode_utf8(bytes), fin }] + drained(
                    remaining,
                    reads.drop_first(),
                )
            } else {
                seq![]
            },
        }
    }
}

/// The error of `String::from_utf8`, carried through unopened.
#[verifier::external_type_specification]
#[verifier::external_body]
pub struct ExFromUtf8Error(std::string::FromUtf8Error);

/// Decodes bytes as UTF-8 text.
///
/// Trusted: `String::from_utf8` succeeds exactly on well-formed UTF-8, and
/// the string it then returns holds the characters that the bytes encode.
#[verifier::external_body]
fn text_from_utf8(bytes: Vec<u8>) -> (text: Result<String, std::string::FromUtf8Error>)
    ensures
        text is Ok <==> valid_utf8(bytes@),
        text matches Ok(s) ==> s@ == decode_utf8(bytes@),
{
    String::from_utf8(bytes)
}

impl StreamReader {
    #[verifier::type_invariant]
    spec fn cursor_in_range(self) -> bool {
        self.cursor <= self.ids.len()
    }

    /// A reader for the streams that the connection reports readable, which
    /// are drained in the order given.
    pub fn new(readable: Vec<u64>) -> (reader: StreamReader)
        ensures
            reader@ == readable@,
    {
        StreamReader { ids: readable, cursor: 0 }
    }

    /// What the reader asks for next.
    pub fn step(&self) -> (step: StreamStep)
        ensures
            step == stream_step(self@),
    {
        proof {
            use_type_invariant(self);
        }
        if self.cursor < self.ids.len() {
            StreamStep::Receive { stream_id: self.ids[self.cursor], capacity: RECV_BUFFER_SIZE }
        } else {
            StreamStep::Finished
        }
    }
}

/// Takes the answer to the read that `reader` asked for.
///
/// Data becomes one item of the stream being read, which stays the stream
/// being read; data that is not UTF-8 is an error and becomes no item. An
/// exhausted stream is left for the next one. A reader that has finished
/// asked for nothing and ignores what it is told.
pub fn read_streams(reader: &mut StreamReader, read: StreamRead) -> (delivery: Result<
    Option<StreamItem>,
    InvalidText,
>)
    ensures
        match read {
            StreamRead::Exhausted => {
                &&& delivery == Ok::<Option<StreamItem>, InvalidText>(None)
                &&& final(reader)@ == after_exhausted(old(reader)@)
            },
            StreamRead::Data { bytes, fin } => {
                &&& final(reader)@ == old(reader)@
                &&& if old(reader)@.len() == 0 {
                    delivery == Ok::<Option<StreamItem>, InvalidText>(None)
                } else if valid_utf8(bytes@) {
                    &&& delivery matches Ok(Some(item))
                    &&& item.stream_id == old(reader)@[0]
                    &&& item.text@ == decode_utf8(bytes@)
                    &&& item.fin == fin
                } else {
                    delivery == Err::<Option<StreamItem>, InvalidText>(
                        InvalidText { stream_id: old(reader)@[0] },
                    )
                }
            },
        },
        forall|rest: Seq<ReadView>|
            #![trigger drained(final(reader)@, rest)]
            drained(old(reader)@, seq![read@] + rest) == match delivery {
                Ok(Some(item)) => seq![item@] + drained(final(reader)@, rest),
                Ok(None) => drained(final(reader)@, rest),
                Err(_) => Seq::<ItemView>::empty(),
            },
{
    proof {
        use_type_invariant(&*reader);
        assert forall|rest: Seq<ReadView>| #![auto] (seq![read@] + rest).drop_first() == rest by {
            assert((seq![read@] + rest).drop_first() =~= rest);
        }
    }
    if reader.cursor >= reader.ids.len() {
        return Ok(None);
    }
    let stream_id = reader.ids[reader.cursor];
    match read {
        StreamRead::Exhausted => {
            assert(reader.ids@.skip(reader.cursor as int).drop_first() =~= reader.ids@.skip(
                reader.cursor as int + 1,
            ));
            reader.cursor = reader.cursor + 1;
            Ok(None)
        },
        StreamRead::Data { bytes, fin } => match text_from_utf8(bytes) {
            Ok(text) => Ok(Some(StreamItem { stream_id, text, fin })),
            Err(_) => Err(InvalidText { stream_id }),
        },
    }
}

/// Text that one side writes to a stream in one piece comes out of the
/// other side's reader as exactly one item, with the same stream, the same
/// text and the same fin flag.
pub proof fn lemma_text_round_trip(stream_id: u64, text: Seq<char>, fin: bool)
    ensures
        drained(
            seq![stream_id],
            seq![ReadView::Data { bytes: encode_utf8(text), fin }, ReadView::Exhausted],
        ) == seq![ItemView { stream_id, text, fin }],
{
    let ids = seq![stream_id];
    let reads = seq![ReadView::Data { bytes: encode_utf8(text), fin }, ReadView::Exhausted];
    encode_utf8_valid_utf8(text);
    encode_utf8_decode_utf8(text);
    reveal_with_fuel(drained, 3);
    assert(reads.drop_first() =~= seq![ReadView::Exhausted]);
    assert(reads.drop_first().drop_first() =~= Seq::<ReadView>::empty());
    assert(ids.drop_first() =~= Seq::<u64>::empty());
    assert(drained(ids, reads) =~= seq![ItemView { stream_id, text, fin }]);
}

/// The greeting of either role, sent on the session's stream with the fin
/// flag, is read on the other side as one final item that holds the
/// greeting's text.
pub proof fn lemma_greeting_round_trip(from: Role)
    ensures
        drained(
            seq![STREAM_ID],
            seq![ReadView::Data { bytes: from.greeting(), fin: true }, ReadView::Exhausted],
        ) == seq![
            ItemView {
                stream_id: STREAM_ID,
                text: match from {
                    Role::Client => "Hello from client"@,
                    Role::Server => "Hello from server"@,
                },
                fin: true,
            },
        ],
{
    match from {
        Role::Client => lemma_text_round_trip(STREAM_ID, "Hello from client"@, true),
        Role::Server => lemma_text_round_trip(STREAM_ID, "Hello from server"@, true),
    }
}

} // verus!
