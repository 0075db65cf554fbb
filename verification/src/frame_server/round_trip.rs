//! Reading a message gives back what was written.

use super::protocol;
use super::protocol::{InfoModel, ReadError, ReplyModel, RequestModel};
use crate::bytes;
use vstd::prelude::*;
use vstd::utf8::*;

verus! {

/// Whether a string's length fits its length field.
pub open spec fn string_fits(s: Seq<char>) -> bool {
    encode_utf8(s).len() <= u32::MAX
}

/// Whether every length of a request fits its field.
pub open spec fn request_fits(r: RequestModel) -> bool {
    r matches RequestModel::Open { rom, replay, .. } ==> string_fits(rom) && string_fits(replay)
}

/// Whether every length of an `Info` payload fits its field.
pub open spec fn info_fits(info: InfoModel) -> bool {
    &&& string_fits(info.console)
    &&& string_fits(info.core_recorded)
    &&& string_fits(info.core_running)
    &&& info.keyframes.len() <= u32::MAX
    &&& info.bookmarks.len() <= u32::MAX
    &&& info.counters.len() <= u32::MAX
    &&& forall|i: int|
        0 <= i < info.bookmarks.len() ==> string_fits((#[trigger] info.bookmarks[i]).0)
    &&& forall|i: int| 0 <= i < info.counters.len() ==> string_fits((#[trigger] info.counters[i]).0)
}

/// Whether every length of a reply fits its field.
pub open spec fn reply_fits(r: ReplyModel) -> bool {
    match r {
        ReplyModel::Hello { server, cores, .. } => {
            &&& string_fits(server)
            &&& cores.len() <= u32::MAX
            &&& forall|i: int| 0 <= i < cores.len() ==> string_fits(#[trigger] cores[i])
        },
        ReplyModel::Info(info) => info_fits(info),
        ReplyModel::Audio { samples, .. } => samples.len() <= u32::MAX,
        ReplyModel::Error { message, .. } => string_fits(message),
        _ => true,
    }
}

proof fn lemma_number(n: nat, width: nat, rest: Seq<u8>)
    requires
        n < bytes::byte_range(width),
    ensures
        protocol::take_number(bytes::le_bytes(n, width) + rest, width) == Ok::<
            (nat, Seq<u8>),
            protocol::DecodeError,
        >((n, rest)),
{
    bytes::lemma_le_bytes(n, width);
    let data = bytes::le_bytes(n, width) + rest;
    assert(data.take(width as int) =~= bytes::le_bytes(n, width));
    assert(data.skip(width as int) =~= rest);
}

proof fn lemma_byte(b: u8, rest: Seq<u8>)
    ensures
        protocol::take_number(seq![b] + rest, 1) == Ok::<
            (nat, Seq<u8>),
            protocol::DecodeError,
        >((b as nat, rest)),
{
    bytes::lemma_byte_ranges();
    reveal_with_fuel(bytes::le_bytes, 2);
    assert(bytes::le_bytes(b as nat, 1) =~= seq![b]);
    lemma_number(b as nat, 1, rest);
}

proof fn lemma_string(s: Seq<char>, rest: Seq<u8>)
    requires
        string_fits(s),
    ensures
        protocol::take_string(protocol::string_bytes(s) + rest) == Ok::<
            (Seq<char>, Seq<u8>),
            protocol::DecodeError,
        >((s, rest)),
{
    bytes::lemma_byte_ranges();
    let utf8 = encode_utf8(s);
    encode_utf8_valid_utf8(s);
    encode_utf8_decode_utf8(s);
    lemma_number(utf8.len(), 4, utf8 + rest);
    assert(protocol::string_bytes(s) + rest =~= bytes::le_bytes(utf8.len(), 4) + (utf8 + rest));
    assert((utf8 + rest).take(utf8.len() as int) =~= utf8);
    assert((utf8 + rest).skip(utf8.len() as int) =~= rest);
}

/// A list reads back if each of its items does.
proof fn lemma_items<T>(
    list: Seq<T>,
    write: spec_fn(T) -> Seq<u8>,
    read: spec_fn(Seq<u8>) -> protocol::Parsed<T>,
    rest: Seq<u8>,
)
    requires
        forall|i: int, after: Seq<u8>|
            0 <= i < list.len() ==> #[trigger] read(write(list[i]) + after) == Ok::<
                (T, Seq<u8>),
                protocol::DecodeError,
            >((list[i], after)),
    ensures
        protocol::take_items(protocol::list_bytes(list, write) + rest, list.len(), read) == Ok::<
            (Seq<T>, Seq<u8>),
            protocol::DecodeError,
        >((list, rest)),
    decreases list.len(),
{
    if list.len() == 0 {
        assert(list =~= Seq::empty());
        assert(protocol::list_bytes(list, write) + rest =~= rest);
    } else {
        let more = list.skip(1);
        assert forall|i: int, after: Seq<u8>| 0 <= i < more.len() implies #[trigger] read(
            write(more[i]) + after,
        ) == Ok::<(T, Seq<u8>), protocol::DecodeError>((more[i], after)) by {
            assert(more[i] == list[i + 1]);
        }
        lemma_items(more, write, read, rest);
        let tail = protocol::list_bytes(more, write) + rest;
        assert(protocol::list_bytes(list, write) + rest =~= write(list[0]) + tail);
        assert(read(write(list[0]) + tail) == Ok::<(T, Seq<u8>), protocol::DecodeError>(
            (list[0], tail),
        ));
        assert(seq![list[0]] + more =~= list);
    }
}

/// A list with its count reads back if each of its items does.
proof fn lemma_list<T>(
    list: Seq<T>,
    write: spec_fn(T) -> Seq<u8>,
    read: spec_fn(Seq<u8>) -> protocol::Parsed<T>,
    rest: Seq<u8>,
)
    requires
        list.len() <= u32::MAX,
        forall|i: int, after: Seq<u8>|
            0 <= i < list.len() ==> #[trigger] read(write(list[i]) + after) == Ok::<
                (T, Seq<u8>),
                protocol::DecodeError,
            >((list[i], after)),
    ensures
        protocol::take_list(protocol::counted_list(list, write) + rest, read) == Ok::<
            (Seq<T>, Seq<u8>),
            protocol::DecodeError,
        >((list, rest)),
{
    bytes::lemma_byte_ranges();
    let items = protocol::list_bytes(list, write);
    lemma_number(list.len(), 4, items + rest);
    assert(protocol::counted_list(list, write) + rest =~= bytes::le_bytes(list.len(), 4) + (items
        + rest));
    lemma_items(list, write, read, rest);
}

proof fn lemma_strings(list: Seq<Seq<char>>, rest: Seq<u8>)
    requires
        list.len() <= u32::MAX,
        forall|i: int| 0 <= i < list.len() ==> string_fits(#[trigger] list[i]),
    ensures
        protocol::take_list(
            protocol::counted_list(list, protocol::string_item()) + rest,
            protocol::take_string_item(),
        ) == Ok::<(Seq<Seq<char>>, Seq<u8>), protocol::DecodeError>((list, rest)),
{
    let write = protocol::string_item();
    let read = protocol::take_string_item();
    assert forall|i: int, after: Seq<u8>| 0 <= i < list.len() implies #[trigger] read(
        write(list[i]) + after,
    ) == Ok::<(Seq<char>, Seq<u8>), protocol::DecodeError>((list[i], after)) by {
        lemma_string(list[i], after);
    }
    lemma_list(list, write, read, rest);
}

proof fn lemma_indices(list: Seq<u64>, rest: Seq<u8>)
    requires
        list.len() <= u32::MAX,
    ensures
        protocol::take_list(
            protocol::counted_list(list, protocol::index_item()) + rest,
            protocol::take_index_item(),
        ) == Ok::<(Seq<u64>, Seq<u8>), protocol::DecodeError>((list, rest)),
{
    bytes::lemma_byte_ranges();
    let write = protocol::index_item();
    let read = protocol::take_index_item();
    assert forall|i: int, after: Seq<u8>| 0 <= i < list.len() implies #[trigger] read(
        write(list[i]) + after,
    ) == Ok::<(u64, Seq<u8>), protocol::DecodeError>((list[i], after)) by {
        lemma_number(list[i] as nat, 8, after);
    }
    lemma_list(list, write, read, rest);
}

proof fn lemma_bookmarks(list: Seq<(Seq<char>, u64)>, rest: Seq<u8>)
    requires
        list.len() <= u32::MAX,
        forall|i: int| 0 <= i < list.len() ==> string_fits((#[trigger] list[i]).0),
    ensures
        protocol::take_list(
            protocol::counted_list(list, protocol::bookmark_item()) + rest,
            protocol::take_bookmark_item(),
        ) == Ok::<(Seq<(Seq<char>, u64)>, Seq<u8>), protocol::DecodeError>((list, rest)),
{
    bytes::lemma_byte_ranges();
    let write = protocol::bookmark_item();
    let read = protocol::take_bookmark_item();
    assert forall|i: int, after: Seq<u8>| 0 <= i < list.len() implies #[trigger] read(
        write(list[i]) + after,
    ) == Ok::<((Seq<char>, u64), Seq<u8>), protocol::DecodeError>((list[i], after)) by {
        let frame = bytes::le_bytes(list[i].1 as nat, 8);
        lemma_string(list[i].0, frame + after);
        lemma_number(list[i].1 as nat, 8, after);
        assert(write(list[i]) + after =~= protocol::string_bytes(list[i].0) + (frame + after));
    }
    lemma_list(list, write, read, rest);
}

proof fn lemma_counters(list: Seq<(Seq<char>, i64)>, rest: Seq<u8>)
    requires
        list.len() <= u32::MAX,
        forall|i: int| 0 <= i < list.len() ==> string_fits((#[trigger] list[i]).0),
    ensures
        protocol::take_list(
            protocol::counted_list(list, protocol::counter_item()) + rest,
            protocol::take_counter_item(),
        ) == Ok::<(Seq<(Seq<char>, i64)>, Seq<u8>), protocol::DecodeError>((list, rest)),
{
    bytes::lemma_byte_ranges();
    let write = protocol::counter_item();
    let read = protocol::take_counter_item();
    assert forall|i: int, after: Seq<u8>| 0 <= i < list.len() implies #[trigger] read(
        write(list[i]) + after,
    ) == Ok::<((Seq<char>, i64), Seq<u8>), protocol::DecodeError>((list[i], after)) by {
        let v: i64 = list[i].1;
        let value = bytes::le_bytes((v as u64) as nat, 8);
        lemma_string(list[i].0, value + after);
        lemma_number((v as u64) as nat, 8, after);
        assert((v as u64) as i64 == v) by (bit_vector);
        assert(write(list[i]) + after =~= protocol::string_bytes(list[i].0) + (value + after));
    }
    lemma_list(list, write, read, rest);
}

proof fn lemma_samples(list: Seq<i16>, rest: Seq<u8>)
    requires
        list.len() <= u32::MAX,
    ensures
        protocol::take_list(
            protocol::counted_list(list, protocol::sample_item()) + rest,
            protocol::take_sample_item(),
        ) == Ok::<(Seq<i16>, Seq<u8>), protocol::DecodeError>((list, rest)),
{
    bytes::lemma_byte_ranges();
    let write = protocol::sample_item();
    let read = protocol::take_sample_item();
    assert forall|i: int, after: Seq<u8>| 0 <= i < list.len() implies #[trigger] read(
        write(list[i]) + after,
    ) == Ok::<(i16, Seq<u8>), protocol::DecodeError>((list[i], after)) by {
        let v: i16 = list[i];
        lemma_number((v as u16) as nat, 2, after);
        assert((v as u16) as i16 == v) by (bit_vector);
    }
    lemma_list(list, write, read, rest);
}

/// Decoding an encoded request gives the request.
pub proof fn law_request_round_trip(r: RequestModel)
    requires
        request_fits(r),
    ensures
        protocol::parse_request(protocol::request_body(r)) == Ok::<
            RequestModel,
            protocol::DecodeError,
        >(r),
{
    bytes::lemma_byte_ranges();
    let body = protocol::request_body(r);
    let none = Seq::<u8>::empty();
    let tag = body[0];
    let d = body.skip(1);
    lemma_byte(tag, d);
    assert(seq![tag] + d =~= body);
    match r {
        RequestModel::Hello { protocol } => {
            lemma_number(protocol as nat, 4, none);
            assert(d =~= bytes::le_bytes(protocol as nat, 4) + none);
        },
        RequestModel::Open { rom, replay, layout, audio } => {
            let flag = protocol::flag_bytes(audio);
            let d3 = flag + none;
            let d2 = seq![layout] + d3;
            let d1 = protocol::string_bytes(replay) + d2;
            assert(d =~= protocol::string_bytes(rom) + d1);
            lemma_string(rom, d1);
            lemma_string(replay, d2);
            lemma_byte(layout, d3);
            lemma_byte(flag[0], none);
            assert(seq![flag[0]] =~= flag);
        },
        RequestModel::Frame { id, index } => {
            let d1 = bytes::le_bytes(index as nat, 8) + none;
            assert(d =~= bytes::le_bytes(id as nat, 4) + d1);
            lemma_number(id as nat, 4, d1);
            lemma_number(index as nat, 8, none);
        },
        RequestModel::Run { id, from, to } => {
            let d2 = bytes::le_bytes(to as nat, 8) + none;
            let d1 = bytes::le_bytes(from as nat, 8) + d2;
            assert(d =~= bytes::le_bytes(id as nat, 4) + d1);
            lemma_number(id as nat, 4, d1);
            lemma_number(from as nat, 8, d2);
            lemma_number(to as nat, 8, none);
        },
        RequestModel::Audio { id, first_frame, frames } => {
            let d2 = bytes::le_bytes(frames as nat, 4) + none;
            let d1 = bytes::le_bytes(first_frame as nat, 8) + d2;
            assert(d =~= bytes::le_bytes(id as nat, 4) + d1);
            lemma_number(id as nat, 4, d1);
            lemma_number(first_frame as nat, 8, d2);
            lemma_number(frames as nat, 4, none);
        },
        RequestModel::Cancel { id } => {
            lemma_number(id as nat, 4, none);
            assert(d =~= bytes::le_bytes(id as nat, 4) + none);
        },
        RequestModel::Close => {
            assert(d =~= none);
        },
    }
}

proof fn lemma_crop(crop: Option<(u64, u64)>, rest: Seq<u8>)
    ensures
        protocol::take_crop(protocol::crop_bytes(crop) + rest) == Ok::<
            (Option<(u64, u64)>, Seq<u8>),
            protocol::DecodeError,
        >((crop, rest)),
{
    bytes::lemma_byte_ranges();
    let (start, end): (u64, u64) = match crop {
        Some(c) => c,
        None => (0, 0),
    };
    let flag = protocol::flag_bytes(crop is Some);
    let d2 = bytes::le_bytes(end as nat, 8) + rest;
    let d1 = bytes::le_bytes(start as nat, 8) + d2;
    assert(protocol::crop_bytes(crop) + rest =~= flag + d1);
    assert(seq![flag[0]] =~= flag);
    lemma_byte(flag[0], d1);
    lemma_number(start as nat, 8, d2);
    lemma_number(end as nat, 8, rest);
}

proof fn lemma_info_tail(info: InfoModel, base: InfoModel)
    requires
        info_fits(info),
        info == (InfoModel {
            keyframes: info.keyframes,
            bookmarks: info.bookmarks,
            crop: info.crop,
            counters: info.counters,
            ..base
        }),
    ensures
        protocol::take_info_tail(base, protocol::info_tail(info)) == Ok::<
            (InfoModel, Seq<u8>),
            protocol::DecodeError,
        >((info, Seq::empty())),
{
    let none = Seq::<u8>::empty();
    let d3 = protocol::counted_list(info.counters, protocol::counter_item()) + none;
    let d2 = protocol::crop_bytes(info.crop) + d3;
    let d1 = protocol::counted_list(info.bookmarks, protocol::bookmark_item()) + d2;
    let d0 = protocol::counted_list(info.keyframes, protocol::index_item()) + d1;
    assert(protocol::info_tail(info) =~= d0);
    lemma_indices(info.keyframes, d1);
    lemma_bookmarks(info.bookmarks, d2);
    lemma_crop(info.crop, d3);
    lemma_counters(info.counters, none);
}

proof fn lemma_info_numbers(info: InfoModel, rest: Seq<u8>)
    ensures
        protocol::take_info_numbers(
            info.console,
            bytes::le_bytes(info.width as nat, 4) + (bytes::le_bytes(info.height as nat, 4) + (
            bytes::le_bytes(info.fps_num as nat, 4) + (bytes::le_bytes(info.fps_den as nat, 4) + (
            bytes::le_bytes(info.frames as nat, 8) + (bytes::le_bytes(info.sample_rate as nat, 4)
                + (protocol::flag_bytes(info.rom_ok) + rest)))))),
        ) == Ok::<(InfoModel, Seq<u8>), protocol::DecodeError>(
            (
                InfoModel {
                    core_recorded: Seq::empty(),
                    core_running: Seq::empty(),
                    keyframes: Seq::empty(),
                    bookmarks: Seq::empty(),
                    crop: None,
                    counters: Seq::empty(),
                    ..info
                },
                rest,
            ),
        ),
{
    bytes::lemma_byte_ranges();
    let flag = protocol::flag_bytes(info.rom_ok);
    let d6 = flag + rest;
    let d5 = bytes::le_bytes(info.sample_rate as nat, 4) + d6;
    let d4 = bytes::le_bytes(info.frames as nat, 8) + d5;
    let d3 = bytes::le_bytes(info.fps_den as nat, 4) + d4;
    let d2 = bytes::le_bytes(info.fps_num as nat, 4) + d3;
    let d1 = bytes::le_bytes(info.height as nat, 4) + d2;
    lemma_number(info.width as nat, 4, d1);
    lemma_number(info.height as nat, 4, d2);
    lemma_number(info.fps_num as nat, 4, d3);
    lemma_number(info.fps_den as nat, 4, d4);
    lemma_number(info.frames as nat, 8, d5);
    lemma_number(info.sample_rate as nat, 4, d6);
    assert(seq![flag[0]] =~= flag);
    lemma_byte(flag[0], rest);
}

proof fn lemma_assoc(a: Seq<u8>, b: Seq<u8>, c: Seq<u8>)
    ensures
        (a + b) + c == a + (b + c),
{
    assert((a + b) + c =~= a + (b + c));
}

/// The payload of an `Info` reply, grouped from the right.
proof fn lemma_info_grouping(info: InfoModel, tail: Seq<u8>)
    ensures
        protocol::info_head(info) + tail == protocol::string_bytes(info.console) + (
        bytes::le_bytes(info.width as nat, 4) + (bytes::le_bytes(info.height as nat, 4) + (
        bytes::le_bytes(info.fps_num as nat, 4) + (bytes::le_bytes(info.fps_den as nat, 4) + (
        bytes::le_bytes(info.frames as nat, 8) + (bytes::le_bytes(info.sample_rate as nat, 4) + (
        protocol::flag_bytes(info.rom_ok) + (protocol::string_bytes(info.core_recorded) + (
        protocol::string_bytes(info.core_running) + tail))))))))),
{
    let h0 = protocol::string_bytes(info.console);
    let p1 = bytes::le_bytes(info.width as nat, 4);
    let p2 = bytes::le_bytes(info.height as nat, 4);
    let p3 = bytes::le_bytes(info.fps_num as nat, 4);
    let p4 = bytes::le_bytes(info.fps_den as nat, 4);
    let p5 = bytes::le_bytes(info.frames as nat, 8);
    let p6 = bytes::le_bytes(info.sample_rate as nat, 4);
    let p7 = protocol::flag_bytes(info.rom_ok);
    let p8 = protocol::string_bytes(info.core_recorded);
    let p9 = protocol::string_bytes(info.core_running);
    let h1 = h0 + p1;
    let h2 = h1 + p2;
    let h3 = h2 + p3;
    let h4 = h3 + p4;
    let h5 = h4 + p5;
    let h6 = h5 + p6;
    let h7 = h6 + p7;
    let h8 = h7 + p8;
    let t9 = p9 + tail;
    let t8 = p8 + t9;
    let t7 = p7 + t8;
    let t6 = p6 + t7;
    let t5 = p5 + t6;
    let t4 = p4 + t5;
    let t3 = p3 + t4;
    let t2 = p2 + t3;
    lemma_assoc(h8, p9, tail);
    lemma_assoc(h7, p8, t9);
    lemma_assoc(h6, p7, t8);
    lemma_assoc(h5, p6, t7);
    lemma_assoc(h4, p5, t6);
    lemma_assoc(h3, p4, t5);
    lemma_assoc(h2, p3, t4);
    lemma_assoc(h1, p2, t3);
    lemma_assoc(h0, p1, t2);
}

proof fn lemma_info(info: InfoModel)
    requires
        info_fits(info),
    ensures
        protocol::take_info(protocol::info_head(info) + protocol::info_tail(info)) == Ok::<
            (InfoModel, Seq<u8>),
            protocol::DecodeError,
        >((info, Seq::empty())),
{
    let tail = protocol::info_tail(info);
    let d3 = protocol::string_bytes(info.core_running) + tail;
    let d2 = protocol::string_bytes(info.core_recorded) + d3;
    let d1 = bytes::le_bytes(info.width as nat, 4) + (bytes::le_bytes(info.height as nat, 4) + (
    bytes::le_bytes(info.fps_num as nat, 4) + (bytes::le_bytes(info.fps_den as nat, 4) + (
    bytes::le_bytes(info.frames as nat, 8) + (bytes::le_bytes(info.sample_rate as nat, 4) + (
    protocol::flag_bytes(info.rom_ok) + d2))))));
    lemma_info_grouping(info, tail);
    lemma_string(info.console, d1);
    lemma_info_numbers(info, d2);
    lemma_string(info.core_recorded, d3);
    lemma_string(info.core_running, tail);
    lemma_info_tail(
        info,
        InfoModel {
            keyframes: Seq::empty(),
            bookmarks: Seq::empty(),
            crop: None,
            counters: Seq::empty(),
            ..info
        },
    );
}

/// A payload that reads as `r` makes a body that parses to `r`.
proof fn lemma_reply_body(tag: u8, payload: Seq<u8>, r: ReplyModel)
    requires
        protocol::take_reply(tag, payload) == Ok::<(ReplyModel, Seq<u8>), protocol::DecodeError>(
            (r, Seq::empty()),
        ),
    ensures
        protocol::parse_reply(seq![tag] + payload) == Ok::<ReplyModel, protocol::DecodeError>(r),
{
    lemma_byte(tag, payload);
}

proof fn lemma_hello(protocol: u32, server: Seq<char>, cores: Seq<Seq<char>>)
    requires
        reply_fits(ReplyModel::Hello { protocol, server, cores }),
    ensures
        protocol::take_reply(
            protocol::TAG_R_HELLO,
            bytes::le_bytes(protocol as nat, 4) + protocol::string_bytes(server)
                + protocol::counted_list(cores, protocol::string_item()),
        ) == Ok::<(ReplyModel, Seq<u8>), protocol::DecodeError>(
            (ReplyModel::Hello { protocol, server, cores }, Seq::empty()),
        ),
{
    bytes::lemma_byte_ranges();
    let none = Seq::<u8>::empty();
    let list = protocol::counted_list(cores, protocol::string_item());
    let d2 = list + none;
    let d1 = protocol::string_bytes(server) + d2;
    assert(d2 =~= list);
    lemma_assoc(bytes::le_bytes(protocol as nat, 4), protocol::string_bytes(server), list);
    lemma_number(protocol as nat, 4, d1);
    lemma_string(server, d2);
    lemma_strings(cores, none);
}

proof fn lemma_audio(id: u32, first_frame: u64, frames: u32, samples: Seq<i16>)
    requires
        samples.len() <= u32::MAX,
    ensures
        protocol::take_reply(
            protocol::TAG_R_AUDIO,
            bytes::le_bytes(id as nat, 4) + bytes::le_bytes(first_frame as nat, 8)
                + bytes::le_bytes(frames as nat, 4) + protocol::counted_list(
                samples,
                protocol::sample_item(),
            ),
        ) == Ok::<(ReplyModel, Seq<u8>), protocol::DecodeError>(
            (ReplyModel::Audio { id, first_frame, frames, samples }, Seq::empty()),
        ),
{
    bytes::lemma_byte_ranges();
    let none = Seq::<u8>::empty();
    let list = protocol::counted_list(samples, protocol::sample_item());
    let i = bytes::le_bytes(id as nat, 4);
    let f = bytes::le_bytes(first_frame as nat, 8);
    let n = bytes::le_bytes(frames as nat, 4);
    let d3 = list + none;
    let d2 = n + d3;
    let d1 = f + d2;
    assert(d3 =~= list);
    lemma_assoc(i + f, n, list);
    lemma_assoc(i, f, n + list);
    lemma_number(id as nat, 4, d1);
    lemma_number(first_frame as nat, 8, d2);
    lemma_number(frames as nat, 4, d3);
    lemma_samples(samples, none);
}

/// Decoding an encoded reply gives the reply.
pub proof fn law_reply_round_trip(r: ReplyModel)
    requires
        reply_fits(r),
    ensures
        protocol::parse_reply(protocol::reply_body(r)) == Ok::<ReplyModel, protocol::DecodeError>(
            r,
        ),
{
    bytes::lemma_byte_ranges();
    let none = Seq::<u8>::empty();
    match r {
        ReplyModel::Hello { protocol, server, cores } => {
            let p = bytes::le_bytes(protocol as nat, 4);
            let s = protocol::string_bytes(server);
            let list = protocol::counted_list(cores, protocol::string_item());
            let t = seq![protocol::TAG_R_HELLO];
            lemma_assoc(t, p, s);
            lemma_assoc(t, p + s, list);
            lemma_hello(protocol, server, cores);
            lemma_reply_body(protocol::TAG_R_HELLO, p + s + list, r);
        },
        ReplyModel::Info(info) => {
            let t = seq![protocol::TAG_R_INFO];
            lemma_assoc(t, protocol::info_head(info), protocol::info_tail(info));
            lemma_info(info);
            lemma_reply_body(
                protocol::TAG_R_INFO,
                protocol::info_head(info) + protocol::info_tail(info),
                r,
            );
        },
        ReplyModel::Frame { id, index, pixels } => {
            let i = bytes::le_bytes(id as nat, 4);
            let x = bytes::le_bytes(index as nat, 8);
            let t = seq![protocol::TAG_R_FRAME];
            lemma_assoc(t, i, x);
            lemma_assoc(t, i + x, pixels);
            lemma_assoc(i, x, pixels);
            lemma_number(id as nat, 4, x + pixels);
            lemma_number(index as nat, 8, pixels);
            lemma_reply_body(protocol::TAG_R_FRAME, i + x + pixels, r);
        },
        ReplyModel::Done { id } => {
            let i = bytes::le_bytes(id as nat, 4);
            lemma_number(id as nat, 4, none);
            assert(i + none =~= i);
            lemma_reply_body(protocol::TAG_R_DONE, i, r);
        },
        ReplyModel::Audio { id, first_frame, frames, samples } => {
            let i = bytes::le_bytes(id as nat, 4);
            let f = bytes::le_bytes(first_frame as nat, 8);
            let n = bytes::le_bytes(frames as nat, 4);
            let list = protocol::counted_list(samples, protocol::sample_item());
            let t = seq![protocol::TAG_R_AUDIO];
            lemma_assoc(t, i, f);
            lemma_assoc(t, i + f, n);
            lemma_assoc(t, i + f + n, list);
            lemma_audio(id, first_frame, frames, samples);
            lemma_reply_body(protocol::TAG_R_AUDIO, i + f + n + list, r);
        },
        ReplyModel::Cancelled { id } => {
            let i = bytes::le_bytes(id as nat, 4);
            lemma_number(id as nat, 4, none);
            assert(i + none =~= i);
            lemma_reply_body(protocol::TAG_R_CANCELLED, i, r);
        },
        ReplyModel::Error { id, message } => {
            let i = bytes::le_bytes(id as nat, 4);
            let m = protocol::string_bytes(message);
            lemma_assoc(seq![protocol::TAG_R_ERROR], i, m);
            lemma_number(id as nat, 4, m);
            lemma_string(message, none);
            assert(m + none =~= m);
            lemma_reply_body(protocol::TAG_R_ERROR, i + m, r);
        },
    }
}

/// A framed message's length field counts its tag and payload, and reading it off a stream gives
/// its body and leaves whatever follows it.
pub proof fn law_messages_in_a_stream(body: Seq<u8>, rest: Seq<u8>, max_len: u32)
    requires
        0 < body.len() <= max_len,
    ensures
        bytes::le_value(protocol::framed(body).take(4)) == body.len(),
        protocol::next_message(protocol::framed(body) + rest, max_len) == Ok::<
            Option<(Seq<u8>, Seq<u8>)>,
            ReadError,
        >(Some((body, rest))),
{
    bytes::lemma_byte_ranges();
    bytes::lemma_le_bytes(body.len(), 4);
    let data = protocol::framed(body) + rest;
    assert(protocol::framed(body).take(4) =~= bytes::le_bytes(body.len(), 4));
    assert(data.take(4) =~= bytes::le_bytes(body.len(), 4));
    assert(data.subrange(4, 4 + body.len() as int) =~= body);
    assert(data.skip(4 + body.len() as int) =~= rest);
}

/// Nothing after the last message is a clean end of the stream.
pub proof fn law_clean_end(max_len: u32)
    ensures
        protocol::next_message(Seq::empty(), max_len) == Ok::<
            Option<(Seq<u8>, Seq<u8>)>,
            ReadError,
        >(None),
{
}

} // verus!
