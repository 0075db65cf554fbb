//! Where each part of a message stands, byte by byte.

use super::protocol;
use super::protocol::{DecodeError, InfoModel, ReadError, ReplyModel, RequestModel};
use crate::bytes;
use vstd::prelude::*;
use vstd::utf8::*;

verus! {

/// The number of `width` bytes at a place, lowest byte first.
pub open spec fn number_at(body: Seq<u8>, at: int, width: int) -> nat {
    bytes::le_value(body.subrange(at, at + width))
}

/// Whether a string stands at a place: its length in four bytes, then its bytes.
pub open spec fn text_at(body: Seq<u8>, at: int, s: Seq<char>) -> bool {
    let len = encode_utf8(s).len() as int;
    &&& at + 4 + len <= body.len()
    &&& number_at(body, at, 4) == len
    &&& body.subrange(at + 4, at + 4 + len) == encode_utf8(s)
}

/// How many bytes a string takes.
pub open spec fn text_len(s: Seq<char>) -> int {
    4int + encode_utf8(s).len()
}

proof fn lemma_number(front: Seq<u8>, n: nat, width: nat, back: Seq<u8>)
    requires
        n < bytes::byte_range(width),
    ensures
        number_at(front + bytes::le_bytes(n, width) + back, front.len() as int, width as int) == n,
        bytes::le_bytes(n, width).len() == width,
{
    bytes::lemma_le_bytes(n, width);
    assert((front + bytes::le_bytes(n, width) + back).subrange(
        front.len() as int,
        front.len() as int + width,
    ) =~= bytes::le_bytes(n, width));
}

proof fn lemma_text(front: Seq<u8>, s: Seq<char>, back: Seq<u8>)
    requires
        encode_utf8(s).len() <= u32::MAX,
    ensures
        text_at(front + protocol::string_bytes(s) + back, front.len() as int, s),
        protocol::string_bytes(s).len() == text_len(s),
{
    bytes::lemma_byte_ranges();
    let utf8 = encode_utf8(s);
    let all = front + protocol::string_bytes(s) + back;
    lemma_number(front, utf8.len(), 4, utf8 + back);
    assert(all =~= front + bytes::le_bytes(utf8.len(), 4) + (utf8 + back));
    let at: int = front.len() as int + 4;
    assert(all.subrange(at, at + utf8.len()) =~= utf8);
}

/// A request for pictures, sound or the end: a byte for the kind, the request's number in four
/// bytes, frame numbers in eight, counts in four, lowest byte first.
pub proof fn law_requests_on_the_wire(id: u32, a: u64, b: u64, n: u32)
    ensures
        ({
            let frame = protocol::request_body(RequestModel::Frame { id, index: a });
            &&& frame.len() == 13
            &&& frame[0] == 3
            &&& number_at(frame, 1, 4) == id
            &&& number_at(frame, 5, 8) == a
        }),
        ({
            let run = protocol::request_body(RequestModel::Run { id, from: a, to: b });
            &&& run.len() == 21
            &&& run[0] == 4
            &&& number_at(run, 1, 4) == id
            &&& number_at(run, 5, 8) == a
            &&& number_at(run, 13, 8) == b
        }),
        ({
            let audio = protocol::request_body(
                RequestModel::Audio { id, first_frame: a, frames: n },
            );
            &&& audio.len() == 17
            &&& audio[0] == 5
            &&& number_at(audio, 1, 4) == id
            &&& number_at(audio, 5, 8) == a
            &&& number_at(audio, 13, 4) == n
        }),
        ({
            let cancel = protocol::request_body(RequestModel::Cancel { id });
            &&& cancel.len() == 5
            &&& cancel[0] == 6
            &&& number_at(cancel, 1, 4) == id
        }),
        protocol::request_body(RequestModel::Close) == seq![7u8],
        ({
            let hello = protocol::request_body(RequestModel::Hello { protocol: n });
            &&& hello.len() == 5
            &&& hello[0] == 1
            &&& number_at(hello, 1, 4) == n
        }),
{
    bytes::lemma_byte_ranges();
    let none = Seq::<u8>::empty();
    let i4 = bytes::le_bytes(id as nat, 4);
    let a8 = bytes::le_bytes(a as nat, 8);
    let b8 = bytes::le_bytes(b as nat, 8);
    let n4 = bytes::le_bytes(n as nat, 4);
    // A frame.
    let t3 = seq![3u8];
    lemma_number(t3, id as nat, 4, a8);
    lemma_number(t3 + i4, a as nat, 8, none);
    assert(t3 + i4 + a8 + none =~= t3 + i4 + a8);
    // A run.
    let t4 = seq![4u8];
    lemma_number(t4, id as nat, 4, a8 + b8);
    lemma_number(t4 + i4, a as nat, 8, b8);
    lemma_number(t4 + i4 + a8, b as nat, 8, none);
    assert(t4 + i4 + (a8 + b8) =~= t4 + i4 + a8 + b8);
    assert(t4 + i4 + a8 + b8 + none =~= t4 + i4 + a8 + b8);
    // Sound.
    let t5 = seq![5u8];
    lemma_number(t5, id as nat, 4, a8 + n4);
    lemma_number(t5 + i4, a as nat, 8, n4);
    lemma_number(t5 + i4 + a8, n as nat, 4, none);
    assert(t5 + i4 + (a8 + n4) =~= t5 + i4 + a8 + n4);
    assert(t5 + i4 + a8 + n4 + none =~= t5 + i4 + a8 + n4);
    // Cancelling.
    let t6 = seq![6u8];
    lemma_number(t6, id as nat, 4, none);
    assert(t6 + i4 + none =~= t6 + i4);
    // Greeting.
    let t1 = seq![1u8];
    lemma_number(t1, n as nat, 4, none);
    assert(t1 + n4 + none =~= t1 + n4);
}

/// An opening: the ROM's path, the replay's path, a byte for the layout and one for the sound.
pub proof fn law_an_opening_on_the_wire(rom: Seq<char>, replay: Seq<char>, layout: u8, audio: bool)
    requires
        encode_utf8(rom).len() <= u32::MAX,
        encode_utf8(replay).len() <= u32::MAX,
    ensures
        ({
            let body = protocol::request_body(RequestModel::Open { rom, replay, layout, audio });
            &&& body.len() == 3 + text_len(rom) + text_len(replay)
            &&& body[0] == 2
            &&& text_at(body, 1, rom)
            &&& text_at(body, 1 + text_len(rom), replay)
            &&& body[1 + text_len(rom) + text_len(replay)] == layout
            &&& body[2 + text_len(rom) + text_len(replay)] == (if audio {
                1u8
            } else {
                0
            })
        }),
{
    let t = seq![2u8];
    let r = protocol::string_bytes(rom);
    let p = protocol::string_bytes(replay);
    let l = seq![layout];
    let f = protocol::flag_bytes(audio);
    lemma_text(t, rom, p + l + f);
    lemma_text(t + r, replay, l + f);
    assert(t + r + (p + l + f) =~= t + r + p + l + f);
    assert(t + r + p + (l + f) =~= t + r + p + l + f);
}

/// A reply with a picture: the kind, the request's number, the picture's index, then the pixels;
/// and the replies that carry the request's number alone.
pub proof fn law_replies_on_the_wire(id: u32, index: u64, pixels: Seq<u8>)
    ensures
        ({
            let frame = protocol::reply_body(ReplyModel::Frame { id, index, pixels });
            &&& frame.len() == 13 + pixels.len()
            &&& frame[0] == 0x83
            &&& number_at(frame, 1, 4) == id
            &&& number_at(frame, 5, 8) == index
            &&& frame.skip(13) == pixels
        }),
        ({
            let done = protocol::reply_body(ReplyModel::Done { id });
            &&& done.len() == 5
            &&& done[0] == 0x84
            &&& number_at(done, 1, 4) == id
        }),
        ({
            let cancelled = protocol::reply_body(ReplyModel::Cancelled { id });
            &&& cancelled.len() == 5
            &&& cancelled[0] == 0x86
            &&& number_at(cancelled, 1, 4) == id
        }),
{
    bytes::lemma_byte_ranges();
    let none = Seq::<u8>::empty();
    let i4 = bytes::le_bytes(id as nat, 4);
    let n8 = bytes::le_bytes(index as nat, 8);
    let t3 = seq![0x83u8];
    lemma_number(t3, id as nat, 4, n8 + pixels);
    lemma_number(t3 + i4, index as nat, 8, pixels);
    assert(t3 + i4 + (n8 + pixels) =~= t3 + i4 + n8 + pixels);
    assert((t3 + i4 + n8 + pixels).skip(13) =~= pixels);
    let t4 = seq![0x84u8];
    lemma_number(t4, id as nat, 4, none);
    assert(t4 + i4 + none =~= t4 + i4);
    let t6 = seq![0x86u8];
    lemma_number(t6, id as nat, 4, none);
    assert(t6 + i4 + none =~= t6 + i4);
}

/// A reply with sound: the kind, the request's number, its first picture, how many pictures, how
/// many samples, then the samples in two bytes each, in order, in two's complement.
pub proof fn law_sound_on_the_wire(
    id: u32,
    first_frame: u64,
    frames: u32,
    samples: Seq<i16>,
    k: int,
)
    requires
        samples.len() <= u32::MAX,
    ensures
        ({
            let body = protocol::reply_body(ReplyModel::Audio { id, first_frame, frames, samples });
            &&& body.len() == 21 + 2 * samples.len()
            &&& body[0] == 0x85
            &&& number_at(body, 1, 4) == id
            &&& number_at(body, 5, 8) == first_frame
            &&& number_at(body, 13, 4) == frames
            &&& number_at(body, 17, 4) == samples.len()
            &&& 0 <= k < samples.len() ==> number_at(body, 21 + 2 * k, 2) == (if samples[k] >= 0 {
                samples[k] as int
            } else {
                samples[k] + 0x1_0000
            })
        }),
{
    bytes::lemma_byte_ranges();
    let t = seq![0x85u8];
    let i4 = bytes::le_bytes(id as nat, 4);
    let f8 = bytes::le_bytes(first_frame as nat, 8);
    let n4 = bytes::le_bytes(frames as nat, 4);
    let s4 = bytes::le_bytes(samples.len(), 4);
    let list = protocol::list_bytes(samples, protocol::sample_item());
    let body = protocol::reply_body(ReplyModel::Audio { id, first_frame, frames, samples });
    assert(body =~= t + i4 + f8 + n4 + s4 + list);
    lemma_number(t, id as nat, 4, f8 + n4 + s4 + list);
    assert(t + i4 + (f8 + n4 + s4 + list) =~= body);
    lemma_number(t + i4, first_frame as nat, 8, n4 + s4 + list);
    assert(t + i4 + f8 + (n4 + s4 + list) =~= body);
    lemma_number(t + i4 + f8, frames as nat, 4, s4 + list);
    assert(t + i4 + f8 + n4 + (s4 + list) =~= body);
    lemma_number(t + i4 + f8 + n4, samples.len(), 4, list);
    lemma_sample_at(samples, k);
    if 0 <= k < samples.len() {
        assert(body.subrange(21 + 2 * k, 21 + 2 * k + 2) =~= list.subrange(2 * k, 2 * k + 2));
    }
}

proof fn lemma_sample_at(samples: Seq<i16>, k: int)
    ensures
        protocol::list_bytes(samples, protocol::sample_item()).len() == 2 * samples.len(),
        0 <= k < samples.len() ==> number_at(
            protocol::list_bytes(samples, protocol::sample_item()),
            2 * k,
            2,
        ) == (if samples[k] >= 0 {
            samples[k] as int
        } else {
            samples[k] + 0x1_0000
        }),
    decreases samples.len(),
{
    bytes::lemma_byte_ranges();
    if samples.len() > 0 {
        let list = protocol::list_bytes(samples, protocol::sample_item());
        let first = samples[0];
        let one = bytes::le_bytes((first as u16) as nat, 2);
        let rest = protocol::list_bytes(samples.skip(1), protocol::sample_item());
        lemma_sample_at(samples.skip(1), k - 1);
        bytes::lemma_le_bytes((first as u16) as nat, 2);
        assert(list == one + rest);
        assert((first as u16) == (if first >= 0 {
            first as int
        } else {
            first + 0x1_0000
        })) by (bit_vector);
        if k == 0 {
            assert(list.subrange(0, 2) =~= one);
        } else if 0 < k < samples.len() {
            assert(list.subrange(2 * k, 2 * k + 2) =~= rest.subrange(2 * (k - 1), 2 * (k - 1) + 2));
            assert(samples.skip(1)[k - 1] == samples[k]);
        }
    }
}

/// A refusal: the kind, the request's number, the message. A greeting's answer: the kind, the
/// protocol's version, the server's name, then its cores.
pub proof fn law_messages_on_the_wire(
    id: u32,
    message: Seq<char>,
    version: u32,
    cores: Seq<Seq<char>>,
)
    requires
        encode_utf8(message).len() <= u32::MAX,
        cores.len() <= u32::MAX,
    ensures
        ({
            let error = protocol::reply_body(ReplyModel::Error { id, message });
            &&& error.len() == 5 + text_len(message)
            &&& error[0] == 0x8F
            &&& number_at(error, 1, 4) == id
            &&& text_at(error, 5, message)
        }),
        ({
            let hello = protocol::reply_body(
                ReplyModel::Hello { protocol: version, server: message, cores },
            );
            &&& hello[0] == 0x81
            &&& number_at(hello, 1, 4) == version
            &&& text_at(hello, 5, message)
            &&& number_at(hello, 5 + text_len(message), 4) == cores.len()
        }),
{
    bytes::lemma_byte_ranges();
    let none = Seq::<u8>::empty();
    let i4 = bytes::le_bytes(id as nat, 4);
    let v4 = bytes::le_bytes(version as nat, 4);
    let m = protocol::string_bytes(message);
    let te = seq![0x8Fu8];
    lemma_number(te, id as nat, 4, m);
    lemma_text(te + i4, message, none);
    assert(te + i4 + m + none =~= te + i4 + m);
    let th = seq![0x81u8];
    let c4 = bytes::le_bytes(cores.len(), 4);
    let list = protocol::list_bytes(cores, protocol::string_item());
    let hello = protocol::reply_body(
        ReplyModel::Hello { protocol: version, server: message, cores },
    );
    assert(hello =~= th + v4 + m + c4 + list);
    lemma_number(th, version as nat, 4, m + c4 + list);
    assert(th + v4 + (m + c4 + list) =~= hello);
    lemma_text(th + v4, message, c4 + list);
    assert(th + v4 + m + (c4 + list) =~= hello);
    lemma_number(th + v4 + m, cores.len(), 4, list);
}

/// What is told of a replay: the console's name, the picture's width and height, the rate, the
/// pictures, the sample rate, whether the ROM fits, the cores' names, then the lists.
#[verifier::spinoff_prover]
#[verifier::rlimit(60)]
pub proof fn law_a_description_on_the_wire(info: InfoModel)
    requires
        encode_utf8(info.console).len() <= u32::MAX,
        encode_utf8(info.core_recorded).len() <= u32::MAX,
        encode_utf8(info.core_running).len() <= u32::MAX,
        info.keyframes.len() <= u32::MAX,
    ensures
        ({
            let body = protocol::reply_body(ReplyModel::Info(info));
            let at = 1 + text_len(info.console);
            let names = at + 29 + text_len(info.core_recorded) + text_len(info.core_running);
            &&& body[0] == 0x82
            &&& text_at(body, 1, info.console)
            &&& number_at(body, at, 4) == info.width
            &&& number_at(body, at + 4, 4) == info.height
            &&& number_at(body, at + 8, 4) == info.fps_num
            &&& number_at(body, at + 12, 4) == info.fps_den
            &&& number_at(body, at + 16, 8) == info.frames
            &&& number_at(body, at + 24, 4) == info.sample_rate
            &&& body[at + 28] == (if info.rom_ok {
                1u8
            } else {
                0
            })
            &&& text_at(body, at + 29, info.core_recorded)
            &&& text_at(body, at + 29 + text_len(info.core_recorded), info.core_running)
            &&& number_at(body, names, 4) == info.keyframes.len()
        }),
{
    bytes::lemma_byte_ranges();
    let t = seq![0x82u8];
    let c = protocol::string_bytes(info.console);
    let w = bytes::le_bytes(info.width as nat, 4);
    let h = bytes::le_bytes(info.height as nat, 4);
    let n = bytes::le_bytes(info.fps_num as nat, 4);
    let d = bytes::le_bytes(info.fps_den as nat, 4);
    let f = bytes::le_bytes(info.frames as nat, 8);
    let s = bytes::le_bytes(info.sample_rate as nat, 4);
    let o = protocol::flag_bytes(info.rom_ok);
    let r = protocol::string_bytes(info.core_recorded);
    let g = protocol::string_bytes(info.core_running);
    let tail = protocol::info_tail(info);
    // What stands in front of each part.
    let p1 = t + c;
    let p2 = p1 + w;
    let p3 = p2 + h;
    let p4 = p3 + n;
    let p5 = p4 + d;
    let p6 = p5 + f;
    let p7 = p6 + s;
    let p8 = p7 + o;
    let p9 = p8 + r;
    let p10 = p9 + g;
    let h1 = c;
    let h2 = h1 + w;
    let h3 = h2 + h;
    let h4 = h3 + n;
    let h5 = h4 + d;
    let h6 = h5 + f;
    let h7 = h6 + s;
    let h8 = h7 + o;
    let h9 = h8 + r;
    let h10 = h9 + g;
    lemma_grouped(t, h1, w);
    lemma_grouped(t, h2, h);
    lemma_grouped(t, h3, n);
    lemma_grouped(t, h4, d);
    lemma_grouped(t, h5, f);
    lemma_grouped(t, h6, s);
    lemma_grouped(t, h7, o);
    lemma_grouped(t, h8, r);
    lemma_grouped(t, h9, g);
    let body = protocol::reply_body(ReplyModel::Info(info));
    assert(body == p10 + tail);
    // What stands behind each part.
    let b10 = tail;
    let b9 = g + b10;
    let b8 = r + b9;
    let b7 = o + b8;
    let b6 = s + b7;
    let b5 = f + b6;
    let b4 = d + b5;
    let b3 = n + b4;
    let b2 = h + b3;
    let b1 = w + b2;
    lemma_grouped(p9, g, b10);
    lemma_grouped(p8, r, b9);
    lemma_grouped(p7, o, b8);
    lemma_grouped(p6, s, b7);
    lemma_grouped(p5, f, b6);
    lemma_grouped(p4, d, b5);
    lemma_grouped(p3, n, b4);
    lemma_grouped(p2, h, b3);
    lemma_grouped(p1, w, b2);
    lemma_text(t, info.console, b1);
    lemma_number(p1, info.width as nat, 4, b2);
    lemma_number(p2, info.height as nat, 4, b3);
    lemma_number(p3, info.fps_num as nat, 4, b4);
    lemma_number(p4, info.fps_den as nat, 4, b5);
    lemma_number(p5, info.frames as nat, 8, b6);
    lemma_number(p6, info.sample_rate as nat, 4, b7);
    assert(body[p7.len() as int] == o[0]);
    lemma_text(p8, info.core_recorded, b9);
    lemma_text(p9, info.core_running, b10);
    lemma_tail_counts_keyframes(p10, info);
    assert(t.len() == 1);
}

proof fn lemma_grouped(a: Seq<u8>, b: Seq<u8>, c: Seq<u8>)
    ensures
        a + (b + c) == (a + b) + c,
        (a + b).len() == a.len() + b.len(),
{
    assert(a + (b + c) =~= (a + b) + c);
}

proof fn lemma_tail_counts_keyframes(front: Seq<u8>, info: InfoModel)
    requires
        info.keyframes.len() <= u32::MAX,
    ensures
        number_at(front + protocol::info_tail(info), front.len() as int, 4) == info.keyframes.len(),
{
    bytes::lemma_byte_ranges();
    let k = bytes::le_bytes(info.keyframes.len(), 4);
    let items = protocol::list_bytes(info.keyframes, protocol::index_item());
    let marks = protocol::counted_list(info.bookmarks, protocol::bookmark_item());
    let crop = protocol::crop_bytes(info.crop);
    let counters = protocol::counted_list(info.counters, protocol::counter_item());
    let rest = items + marks + crop + counters;
    lemma_number(front, info.keyframes.len(), 4, rest);
    assert(front + protocol::info_tail(info) =~= front + k + rest);
}

/// A message in a stream is its length in four bytes, then its body.
pub proof fn law_messages_are_framed(body: Seq<u8>)
    requires
        body.len() <= u32::MAX,
    ensures
        protocol::framed(body).len() == 4 + body.len(),
        number_at(protocol::framed(body), 0, 4) == body.len(),
        protocol::framed(body).skip(4) == body,
{
    bytes::lemma_byte_ranges();
    let none = Seq::<u8>::empty();
    lemma_number(none, body.len(), 4, body);
    assert(none + bytes::le_bytes(body.len(), 4) + body =~= protocol::framed(body));
    assert(protocol::framed(body).skip(4) =~= body);
}

/// What a request's bytes say, of whatever bytes arrive: a request of a known kind and of exactly
/// its length says what stands at its places; a shorter one is truncated, a longer one has bytes
/// too many, and of another kind there is none.
pub proof fn law_requests_are_read_exactly(body: Seq<u8>)
    requires
        body.len() <= usize::MAX,
    ensures
        body.len() == 0 ==> protocol::parse_request(body) == Err::<RequestModel, DecodeError>(
            DecodeError::Truncated,
        ),
        body.len() > 0 && body[0] == 3 ==> {
            &&& body.len() < 13 ==> protocol::parse_request(body) == Err::<
                RequestModel,
                DecodeError,
            >(DecodeError::Truncated)
            &&& body.len() == 13 ==> protocol::parse_request(body) == Ok::<
                RequestModel,
                DecodeError,
            >(
                RequestModel::Frame {
                    id: number_at(body, 1, 4) as u32,
                    index: number_at(body, 5, 8) as u64,
                },
            )
            &&& body.len() > 13 ==> protocol::parse_request(body) == Err::<
                RequestModel,
                DecodeError,
            >(DecodeError::TrailingBytes((body.len() - 13) as usize))
        },
        body.len() > 0 && body[0] == 6 ==> {
            &&& body.len() < 5 ==> protocol::parse_request(body) == Err::<
                RequestModel,
                DecodeError,
            >(DecodeError::Truncated)
            &&& body.len() == 5 ==> protocol::parse_request(body) == Ok::<
                RequestModel,
                DecodeError,
            >(RequestModel::Cancel { id: number_at(body, 1, 4) as u32 })
            &&& body.len() > 5 ==> protocol::parse_request(body) == Err::<
                RequestModel,
                DecodeError,
            >(DecodeError::TrailingBytes((body.len() - 5) as usize))
        },
        body.len() > 0 && (body[0] == 0 || body[0] > 7) ==> protocol::parse_request(body) == Err::<
            RequestModel,
            DecodeError,
        >(DecodeError::UnknownTag(body[0])),
{
    if body.len() > 0 {
        let tag = body.take(1);
        let d = body.skip(1);
        bytes::law_what_bytes_are_worth(tag);
        assert(tag[0] == body[0]);
        if d.len() >= 4 {
            assert(d.take(4) =~= body.subrange(1, 5));
            let e = d.skip(4);
            assert(e.len() == body.len() - 5);
            if e.len() >= 8 {
                assert(e.take(8) =~= body.subrange(5, 13));
                assert(e.skip(8).len() == body.len() - 13);
            }
        }
    }
}

/// A stream that is not a run of messages is found out: one that ends inside a message's length or
/// body, and one that announces no message at all or one that is too long.
pub proof fn law_broken_streams_are_found_out(input: Seq<u8>, max_len: u32)
    ensures
        0 < input.len() < 4 ==> protocol::next_message(input, max_len) == Err::<
            Option<(Seq<u8>, Seq<u8>)>,
            ReadError,
        >(ReadError::UnexpectedEof),
        input.len() >= 4 ==> {
            let len = number_at(input, 0, 4);
            &&& len == 0 || len > max_len ==> protocol::next_message(input, max_len) == Err::<
                Option<(Seq<u8>, Seq<u8>)>,
                ReadError,
            >(ReadError::InvalidData(DecodeError::TooLong(len as u32)))
            &&& 0 < len <= max_len && input.len() < 4 + len ==> protocol::next_message(
                input,
                max_len,
            ) == Err::<Option<(Seq<u8>, Seq<u8>)>, ReadError>(ReadError::UnexpectedEof)
            &&& 0 < len <= max_len && input.len() >= 4 + len ==> (protocol::next_message(
                input,
                max_len,
            ) matches Ok(Some((body, rest))) && body.len() == len && input == input.take(4) + body
                + rest)
        },
{
    if input.len() >= 4 {
        assert(input.take(4) =~= input.subrange(0, 4));
        let len = number_at(input, 0, 4);
        if 0 < len <= max_len && input.len() >= 4 + len {
            let body = input.subrange(4, 4 + len as int);
            let rest = input.skip(4 + len as int);
            assert(input =~= input.take(4) + body + rest);
        }
    }
}

} // verus!
