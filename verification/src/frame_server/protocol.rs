//! The wire protocol, version 1. Everything is little-endian:
//!
//! ```text
//! message := u32 length | u8 tag | payload      (length counts tag + payload)
//! string  := u32 length | UTF-8 bytes
//! ```

use crate::bytes;
use crate::text;
use vstd::prelude::*;
use vstd::slice::{slice_subrange, slice_to_vec};
use vstd::string::*;
use vstd::utf8::*;

verus! {

/// The protocol version this server speaks.
pub const PROTOCOL_VERSION: u32 = 1;

/// Longest message accepted from the client. Requests are tiny; anything bigger is a framing
/// error rather than a real request.
pub const MAX_REQUEST_LENGTH: u32 = 0x10_0000;

/// Tag of [`Request::Hello`].
pub const TAG_HELLO: u8 = 0x01;

/// Tag of [`Request::Open`].
pub const TAG_OPEN: u8 = 0x02;

/// Tag of [`Request::Frame`].
pub const TAG_FRAME: u8 = 0x03;

/// Tag of [`Request::Run`].
pub const TAG_RUN: u8 = 0x04;

/// Tag of [`Request::Audio`].
pub const TAG_AUDIO: u8 = 0x05;

/// Tag of [`Request::Cancel`].
pub const TAG_CANCEL: u8 = 0x06;

/// Tag of [`Request::Close`].
pub const TAG_CLOSE: u8 = 0x07;

/// Tag of [`Reply::Hello`].
pub const TAG_R_HELLO: u8 = 0x81;

/// Tag of [`Reply::Info`].
pub const TAG_R_INFO: u8 = 0x82;

/// Tag of [`Reply::Frame`].
pub const TAG_R_FRAME: u8 = 0x83;

/// Tag of [`Reply::Done`].
pub const TAG_R_DONE: u8 = 0x84;

/// Tag of [`Reply::Audio`].
pub const TAG_R_AUDIO: u8 = 0x85;

/// Tag of [`Reply::Cancelled`].
pub const TAG_R_CANCELLED: u8 = 0x86;

/// Tag of [`Reply::Error`].
pub const TAG_R_ERROR: u8 = 0x8F;

/// A request from the client.
#[derive(Clone, Debug, PartialEq, Eq)]
pub enum Request {
    Hello { protocol: u32 },
    Open { rom: String, replay: String, layout: u8, audio: bool },
    Frame { id: u32, index: u64 },
    Run { id: u32, from: u64, to: u64 },
    Audio { id: u32, first_frame: u64, frames: u32 },
    Cancel { id: u32 },
    Close,
}

/// The `Info` reply's payload.
#[derive(Clone, Debug, PartialEq, Eq)]
pub struct Info {
    pub console: String,
    pub width: u32,
    pub height: u32,
    pub fps_num: u32,
    pub fps_den: u32,
    pub frames: u64,
    pub sample_rate: u32,
    pub rom_ok: bool,
    pub core_recorded: String,
    pub core_running: String,
    pub keyframes: Vec<u64>,
    pub bookmarks: Vec<(String, u64)>,
    pub crop: Option<(u64, u64)>,
    pub counters: Vec<(String, i64)>,
}

/// A reply to the client.
#[derive(Clone, Debug, PartialEq, Eq)]
pub enum Reply {
    Hello { protocol: u32, server: String, cores: Vec<String> },
    Info(Info),
    /// `pixels` is `width x height x 4` bytes, B,G,R,A per pixel, rows top to bottom.
    Frame { id: u32, index: u64, pixels: Vec<u8> },
    Done { id: u32 },
    /// `samples` is interleaved stereo (left, right, ...).
    Audio { id: u32, first_frame: u64, frames: u32, samples: Vec<i16> },
    Cancelled { id: u32 },
    Error { id: u32, message: String },
}

/// Why a message could not be decoded.
#[derive(Copy, Clone, Debug, PartialEq, Eq, Structural)]
pub enum DecodeError {
    Truncated,
    UnknownTag(u8),
    BadString,
    TrailingBytes(usize),
    TooLong(u32),
}

/// A request, as the contracts see it.
pub ghost enum RequestModel {
    Hello { protocol: u32 },
    Open { rom: Seq<char>, replay: Seq<char>, layout: u8, audio: bool },
    Frame { id: u32, index: u64 },
    Run { id: u32, from: u64, to: u64 },
    Audio { id: u32, first_frame: u64, frames: u32 },
    Cancel { id: u32 },
    Close,
}

impl View for Request {
    type V = RequestModel;

    open spec fn view(&self) -> RequestModel {
        match *self {
            Request::Hello { protocol } => RequestModel::Hello { protocol },
            Request::Open { rom, replay, layout, audio } => RequestModel::Open {
                rom: rom@,
                replay: replay@,
                layout,
                audio,
            },
            Request::Frame { id, index } => RequestModel::Frame { id, index },
            Request::Run { id, from, to } => RequestModel::Run { id, from, to },
            Request::Audio { id, first_frame, frames } => RequestModel::Audio {
                id,
                first_frame,
                frames,
            },
            Request::Cancel { id } => RequestModel::Cancel { id },
            Request::Close => RequestModel::Close,
        }
    }
}

/// An `Info` reply's payload, as the contracts see it.
#[verifier::ext_equal]
pub ghost struct InfoModel {
    pub console: Seq<char>,
    pub width: u32,
    pub height: u32,
    pub fps_num: u32,
    pub fps_den: u32,
    pub frames: u64,
    pub sample_rate: u32,
    pub rom_ok: bool,
    pub core_recorded: Seq<char>,
    pub core_running: Seq<char>,
    pub keyframes: Seq<u64>,
    pub bookmarks: Seq<(Seq<char>, u64)>,
    pub crop: Option<(u64, u64)>,
    pub counters: Seq<(Seq<char>, i64)>,
}

/// A reply, as the contracts see it.
#[verifier::ext_equal]
pub ghost enum ReplyModel {
    Hello { protocol: u32, server: Seq<char>, cores: Seq<Seq<char>> },
    Info(InfoModel),
    Frame { id: u32, index: u64, pixels: Seq<u8> },
    Done { id: u32 },
    Audio { id: u32, first_frame: u64, frames: u32, samples: Seq<i16> },
    Cancelled { id: u32 },
    Error { id: u32, message: Seq<char> },
}

/// The texts of a list of strings.
pub open spec fn texts(list: Seq<String>) -> Seq<Seq<char>> {
    Seq::new(list.len(), |i: int| list[i]@)
}

/// A list of named values with the names as texts.
pub open spec fn named<T>(list: Seq<(String, T)>) -> Seq<(Seq<char>, T)> {
    Seq::new(list.len(), |i: int| (list[i].0@, list[i].1))
}

impl View for Info {
    type V = InfoModel;

    open spec fn view(&self) -> InfoModel {
        InfoModel {
            console: self.console@,
            width: self.width,
            height: self.height,
            fps_num: self.fps_num,
            fps_den: self.fps_den,
            frames: self.frames,
            sample_rate: self.sample_rate,
            rom_ok: self.rom_ok,
            core_recorded: self.core_recorded@,
            core_running: self.core_running@,
            keyframes: self.keyframes@,
            bookmarks: named(self.bookmarks@),
            crop: self.crop,
            counters: named(self.counters@),
        }
    }
}

impl View for Reply {
    type V = ReplyModel;

    open spec fn view(&self) -> ReplyModel {
        match *self {
            Reply::Hello { protocol, server, cores } => ReplyModel::Hello {
                protocol,
                server: server@,
                cores: texts(cores@),
            },
            Reply::Info(info) => ReplyModel::Info(info@),
            Reply::Frame { id, index, pixels } => ReplyModel::Frame { id, index, pixels: pixels@ },
            Reply::Done { id } => ReplyModel::Done { id },
            Reply::Audio { id, first_frame, frames, samples } => ReplyModel::Audio {
                id,
                first_frame,
                frames,
                samples: samples@,
            },
            Reply::Cancelled { id } => ReplyModel::Cancelled { id },
            Reply::Error { id, message } => ReplyModel::Error { id, message: message@ },
        }
    }
}

impl Default for Info {
    /// Nothing known: empty names and lists, zeros, no crop.
    fn default() -> (r: Self)
        ensures
            r@ == (InfoModel {
                console: Seq::empty(),
                width: 0,
                height: 0,
                fps_num: 0,
                fps_den: 0,
                frames: 0,
                sample_rate: 0,
                rom_ok: false,
                core_recorded: Seq::empty(),
                core_running: Seq::empty(),
                keyframes: Seq::empty(),
                bookmarks: Seq::empty(),
                crop: None,
                counters: Seq::empty(),
            }),
    {
        Info {
            console: String::new(),
            width: 0,
            height: 0,
            fps_num: 0,
            fps_den: 0,
            frames: 0,
            sample_rate: 0,
            rom_ok: false,
            core_recorded: String::new(),
            core_running: String::new(),
            keyframes: Vec::new(),
            bookmarks: Vec::new(),
            crop: None,
            counters: Vec::new(),
        }
    }
}

// ---------------------------------------------------------------------------------------------
// What the bytes of a message are.

/// A string on the wire: its length in bytes, then the bytes.
pub open spec fn string_bytes(s: Seq<char>) -> Seq<u8> {
    bytes::le_bytes(encode_utf8(s).len(), 4) + encode_utf8(s)
}

/// One byte for a flag.
pub open spec fn flag_bytes(b: bool) -> Seq<u8> {
    seq![if b { 1u8 } else { 0u8 }]
}

/// A request's tag and payload.
pub open spec fn request_body(r: RequestModel) -> Seq<u8> {
    match r {
        RequestModel::Hello { protocol } => seq![TAG_HELLO] + bytes::le_bytes(protocol as nat, 4),
        RequestModel::Open { rom, replay, layout, audio } => seq![TAG_OPEN] + string_bytes(rom)
            + string_bytes(replay) + seq![layout] + flag_bytes(audio),
        RequestModel::Frame { id, index } => seq![TAG_FRAME] + bytes::le_bytes(id as nat, 4)
            + bytes::le_bytes(index as nat, 8),
        RequestModel::Run { id, from, to } => seq![TAG_RUN] + bytes::le_bytes(id as nat, 4)
            + bytes::le_bytes(from as nat, 8) + bytes::le_bytes(to as nat, 8),
        RequestModel::Audio { id, first_frame, frames } => seq![TAG_AUDIO] + bytes::le_bytes(
            id as nat,
            4,
        ) + bytes::le_bytes(first_frame as nat, 8) + bytes::le_bytes(frames as nat, 4),
        RequestModel::Cancel { id } => seq![TAG_CANCEL] + bytes::le_bytes(id as nat, 4),
        RequestModel::Close => seq![TAG_CLOSE],
    }
}

/// The items of a list, one after the other.
pub open spec fn list_bytes<T>(list: Seq<T>, item: spec_fn(T) -> Seq<u8>) -> Seq<u8>
    decreases list.len(),
{
    if list.len() == 0 {
        Seq::empty()
    } else {
        item(list[0]) + list_bytes(list.skip(1), item)
    }
}

/// How many items a list has, then the items.
pub open spec fn counted_list<T>(list: Seq<T>, item: spec_fn(T) -> Seq<u8>) -> Seq<u8> {
    bytes::le_bytes(list.len(), 4) + list_bytes(list, item)
}

/// How a string of a list is written.
pub open spec fn string_item() -> spec_fn(Seq<char>) -> Seq<u8> {
    |s: Seq<char>| string_bytes(s)
}

/// How a frame index of a list is written.
pub open spec fn index_item() -> spec_fn(u64) -> Seq<u8> {
    |n: u64| bytes::le_bytes(n as nat, 8)
}

/// How a bookmark is written: its name and its frame.
pub open spec fn bookmark_item() -> spec_fn((Seq<char>, u64)) -> Seq<u8> {
    |b: (Seq<char>, u64)| string_bytes(b.0) + bytes::le_bytes(b.1 as nat, 8)
}

/// How a counter is written: its name and its value in two's complement.
pub open spec fn counter_item() -> spec_fn((Seq<char>, i64)) -> Seq<u8> {
    |c: (Seq<char>, i64)| string_bytes(c.0) + bytes::le_bytes((c.1 as u64) as nat, 8)
}

/// How a sample is written: in two's complement.
pub open spec fn sample_item() -> spec_fn(i16) -> Seq<u8> {
    |s: i16| bytes::le_bytes((s as u16) as nat, 2)
}

/// A crop range: whether there is one, then its ends (zero without one).
pub open spec fn crop_bytes(crop: Option<(u64, u64)>) -> Seq<u8> {
    match crop {
        Some((start, end)) => flag_bytes(true) + bytes::le_bytes(start as nat, 8)
            + bytes::le_bytes(end as nat, 8),
        None => flag_bytes(false) + bytes::le_bytes(0, 8) + bytes::le_bytes(0, 8),
    }
}

/// The payload of an `Info` reply up to its lists.
pub open spec fn info_head(info: InfoModel) -> Seq<u8> {
    string_bytes(info.console) + bytes::le_bytes(info.width as nat, 4) + bytes::le_bytes(
        info.height as nat,
        4,
    ) + bytes::le_bytes(info.fps_num as nat, 4) + bytes::le_bytes(info.fps_den as nat, 4)
        + bytes::le_bytes(info.frames as nat, 8) + bytes::le_bytes(info.sample_rate as nat, 4)
        + flag_bytes(info.rom_ok) + string_bytes(info.core_recorded) + string_bytes(
        info.core_running,
    )
}

/// The lists of an `Info` reply's payload.
pub open spec fn info_tail(info: InfoModel) -> Seq<u8> {
    counted_list(info.keyframes, index_item()) + counted_list(info.bookmarks, bookmark_item())
        + crop_bytes(info.crop) + counted_list(info.counters, counter_item())
}

/// A reply's tag and payload.
pub open spec fn reply_body(r: ReplyModel) -> Seq<u8> {
    match r {
        ReplyModel::Hello { protocol, server, cores } => seq![TAG_R_HELLO] + bytes::le_bytes(
            protocol as nat,
            4,
        ) + string_bytes(server) + counted_list(cores, string_item()),
        ReplyModel::Info(info) => seq![TAG_R_INFO] + info_head(info) + info_tail(info),
        ReplyModel::Frame { id, index, pixels } => seq![TAG_R_FRAME] + bytes::le_bytes(id as nat, 4)
            + bytes::le_bytes(index as nat, 8) + pixels,
        ReplyModel::Done { id } => seq![TAG_R_DONE] + bytes::le_bytes(id as nat, 4),
        ReplyModel::Audio { id, first_frame, frames, samples } => seq![TAG_R_AUDIO]
            + bytes::le_bytes(id as nat, 4) + bytes::le_bytes(first_frame as nat, 8)
            + bytes::le_bytes(frames as nat, 4) + counted_list(samples, sample_item()),
        ReplyModel::Cancelled { id } => seq![TAG_R_CANCELLED] + bytes::le_bytes(id as nat, 4),
        ReplyModel::Error { id, message } => seq![TAG_R_ERROR] + bytes::le_bytes(id as nat, 4)
            + string_bytes(message),
    }
}

/// A body with its length in front.
pub open spec fn framed(body: Seq<u8>) -> Seq<u8> {
    bytes::le_bytes(body.len(), 4) + body
}

// ---------------------------------------------------------------------------------------------
// What the bytes of a message say.

/// What one reading step finds: a value and the bytes after it, or what is wrong.
pub type Parsed<T> = Result<(T, Seq<u8>), DecodeError>;

/// The first step's value handed to the second.
pub open spec fn after<T, U>(first: Parsed<T>, second: spec_fn(T, Seq<u8>) -> Parsed<U>) -> Parsed<
    U,
> {
    match first {
        Ok((value, rest)) => second(value, rest),
        Err(e) => Err(e),
    }
}

/// The next `n` bytes.
pub open spec fn take_bytes(data: Seq<u8>, n: nat) -> Parsed<Seq<u8>> {
    if data.len() < n {
        Err(DecodeError::Truncated)
    } else {
        Ok((data.take(n as int), data.skip(n as int)))
    }
}

/// The next `width` bytes as a number.
pub open spec fn take_number(data: Seq<u8>, width: nat) -> Parsed<nat> {
    after(take_bytes(data, width), |b: Seq<u8>, rest: Seq<u8>| Ok((bytes::le_value(b), rest)))
}

/// The next string.
pub open spec fn take_string(data: Seq<u8>) -> Parsed<Seq<char>> {
    after(
        take_number(data, 4),
        |n: nat, rest: Seq<u8>|
            after(
                take_bytes(rest, n),
                |b: Seq<u8>, rest: Seq<u8>|
                    if valid_utf8(b) {
                        Ok((decode_utf8(b), rest))
                    } else {
                        Err(DecodeError::BadString)
                    },
            ),
    )
}

/// Nothing may follow the last field.
pub open spec fn finished<T>(parsed: Parsed<T>) -> Result<T, DecodeError> {
    match parsed {
        Ok((value, rest)) => if rest.len() == 0 {
            Ok(value)
        } else {
            Err(DecodeError::TrailingBytes(rest.len() as usize))
        },
        Err(e) => Err(e),
    }
}

/// A request's payload, by its tag.
pub open spec fn take_request(tag: u8, data: Seq<u8>) -> Parsed<RequestModel> {
    if tag == TAG_HELLO {
        after(
            take_number(data, 4),
            |protocol: nat, d: Seq<u8>|
                Ok((RequestModel::Hello { protocol: protocol as u32 }, d)),
        )
    } else if tag == TAG_OPEN {
        after(
            take_string(data),
            |rom: Seq<char>, d: Seq<u8>|
                after(
                    take_string(d),
                    |replay: Seq<char>, d: Seq<u8>|
                        after(
                            take_number(d, 1),
                            |layout: nat, d: Seq<u8>|
                                after(
                                    take_number(d, 1),
                                    |audio: nat, d: Seq<u8>|
                                        Ok(
                                            (
                                                RequestModel::Open {
                                                    rom,
                                                    replay,
                                                    layout: layout as u8,
                                                    audio: audio != 0,
                                                },
                                                d,
                                            ),
                                        ),
                                ),
                        ),
                ),
        )
    } else if tag == TAG_FRAME {
        after(
            take_number(data, 4),
            |id: nat, d: Seq<u8>|
                after(
                    take_number(d, 8),
                    |index: nat, d: Seq<u8>|
                        Ok((RequestModel::Frame { id: id as u32, index: index as u64 }, d)),
                ),
        )
    } else if tag == TAG_RUN {
        after(
            take_number(data, 4),
            |id: nat, d: Seq<u8>|
                after(
                    take_number(d, 8),
                    |from: nat, d: Seq<u8>|
                        after(
                            take_number(d, 8),
                            |to: nat, d: Seq<u8>|
                                Ok(
                                    (
                                        RequestModel::Run {
                                            id: id as u32,
                                            from: from as u64,
                                            to: to as u64,
                                        },
                                        d,
                                    ),
                                ),
                        ),
                ),
        )
    } else if tag == TAG_AUDIO {
        after(
            take_number(data, 4),
            |id: nat, d: Seq<u8>|
                after(
                    take_number(d, 8),
                    |first_frame: nat, d: Seq<u8>|
                        after(
                            take_number(d, 4),
                            |frames: nat, d: Seq<u8>|
                                Ok(
                                    (
                                        RequestModel::Audio {
                                            id: id as u32,
                                            first_frame: first_frame as u64,
                                            frames: frames as u32,
                                        },
                                        d,
                                    ),
                                ),
                        ),
                ),
        )
    } else if tag == TAG_CANCEL {
        after(
            take_number(data, 4),
            |id: nat, d: Seq<u8>| Ok((RequestModel::Cancel { id: id as u32 }, d)),
        )
    } else if tag == TAG_CLOSE {
        Ok((RequestModel::Close, data))
    } else {
        Err(DecodeError::UnknownTag(tag))
    }
}

/// What a request's tag and payload say.
pub open spec fn parse_request(body: Seq<u8>) -> Result<RequestModel, DecodeError> {
    finished(
        after(take_number(body, 1), |tag: nat, d: Seq<u8>| take_request(tag as u8, d)),
    )
}

/// The next `n` items of a list.
pub open spec fn take_items<T>(
    data: Seq<u8>,
    n: nat,
    item: spec_fn(Seq<u8>) -> Parsed<T>,
) -> Parsed<Seq<T>>
    decreases n,
{
    if n == 0 {
        Ok((Seq::empty(), data))
    } else {
        match item(data) {
            Err(e) => Err(e),
            Ok((first, rest)) => match take_items(rest, (n - 1) as nat, item) {
                Err(e) => Err(e),
                Ok((more, rest)) => Ok((seq![first] + more, rest)),
            },
        }
    }
}

/// A list with its count in front.
pub open spec fn take_list<T>(data: Seq<u8>, item: spec_fn(Seq<u8>) -> Parsed<T>) -> Parsed<
    Seq<T>,
> {
    after(take_number(data, 4), |n: nat, d: Seq<u8>| take_items(d, n, item))
}

/// How a string of a list is read.
pub open spec fn take_string_item() -> spec_fn(Seq<u8>) -> Parsed<Seq<char>> {
    |d: Seq<u8>| take_string(d)
}

/// How a frame index of a list is read.
pub open spec fn take_index_item() -> spec_fn(Seq<u8>) -> Parsed<u64> {
    |d: Seq<u8>| after(take_number(d, 8), |n: nat, d: Seq<u8>| Ok((n as u64, d)))
}

/// How a bookmark is read.
pub open spec fn take_bookmark_item() -> spec_fn(Seq<u8>) -> Parsed<(Seq<char>, u64)> {
    |d: Seq<u8>|
        after(
            take_string(d),
            |name: Seq<char>, d: Seq<u8>|
                after(take_number(d, 8), |n: nat, d: Seq<u8>| Ok(((name, n as u64), d))),
        )
}

/// How a counter is read.
pub open spec fn take_counter_item() -> spec_fn(Seq<u8>) -> Parsed<(Seq<char>, i64)> {
    |d: Seq<u8>|
        after(
            take_string(d),
            |name: Seq<char>, d: Seq<u8>|
                after(take_number(d, 8), |n: nat, d: Seq<u8>| Ok(((name, (n as u64) as i64), d))),
        )
}

/// How a sample is read.
pub open spec fn take_sample_item() -> spec_fn(Seq<u8>) -> Parsed<i16> {
    |d: Seq<u8>| after(take_number(d, 2), |n: nat, d: Seq<u8>| Ok(((n as u16) as i16, d)))
}

/// A crop range.
pub open spec fn take_crop(data: Seq<u8>) -> Parsed<Option<(u64, u64)>> {
    after(
        take_number(data, 1),
        |has: nat, d: Seq<u8>|
            after(
                take_number(d, 8),
                |start: nat, d: Seq<u8>|
                    after(
                        take_number(d, 8),
                        |end: nat, d: Seq<u8>|
                            Ok(
                                (
                                    if has != 0 {
                                        Some((start as u64, end as u64))
                                    } else {
                                        None
                                    },
                                    d,
                                ),
                            ),
                    ),
            ),
    )
}

/// The lists of an `Info` reply's payload, put into what came before them.
pub open spec fn take_info_tail(info: InfoModel, data: Seq<u8>) -> Parsed<InfoModel> {
    after(
        take_list(data, take_index_item()),
        |keyframes: Seq<u64>, d: Seq<u8>|
            after(
                take_list(d, take_bookmark_item()),
                |bookmarks: Seq<(Seq<char>, u64)>, d: Seq<u8>|
                    after(
                        take_crop(d),
                        |crop: Option<(u64, u64)>, d: Seq<u8>|
                            after(
                                take_list(d, take_counter_item()),
                                |counters: Seq<(Seq<char>, i64)>, d: Seq<u8>|
                                    Ok(
                                        (
                                            InfoModel {
                                                keyframes,
                                                bookmarks,
                                                crop,
                                                counters,
                                                ..info
                                            },
                                            d,
                                        ),
                                    ),
                            ),
                    ),
            ),
    )
}

/// The seven numbers in the middle of an `Info` reply's payload.
pub open spec fn take_info_numbers(console: Seq<char>, data: Seq<u8>) -> Parsed<InfoModel> {
    after(
        take_number(data, 4),
        |width: nat, d: Seq<u8>|
            after(
                take_number(d, 4),
                |height: nat, d: Seq<u8>|
                    after(
                        take_number(d, 4),
                        |fps_num: nat, d: Seq<u8>|
                            after(
                                take_number(d, 4),
                                |fps_den: nat, d: Seq<u8>|
                                    after(
                                        take_number(d, 8),
                                        |frames: nat, d: Seq<u8>|
                                            after(
                                                take_number(d, 4),
                                                |sample_rate: nat, d: Seq<u8>|
                                                    after(
                                                        take_number(d, 1),
                                                        |rom_ok: nat, d: Seq<u8>|
                                                            Ok(
                                                                (
                                                                    InfoModel {
                                                                        console,
                                                                        width: width as u32,
                                                                        height: height as u32,
                                                                        fps_num: fps_num as u32,
                                                                        fps_den: fps_den as u32,
                                                                        frames: frames as u64,
                                                                        sample_rate:
                                                                            sample_rate as u32,
                                                                        rom_ok: rom_ok != 0,
                                                                        core_recorded: Seq::empty(),
                                                                        core_running: Seq::empty(),
                                                                        keyframes: Seq::empty(),
                                                                        bookmarks: Seq::empty(),
                                                                        crop: None,
                                                                        counters: Seq::empty(),
                                                                    },
                                                                    d,
                                                                ),
                                                            ),
                                                    ),
                                            ),
                                    ),
                            ),
                    ),
            ),
    )
}

/// An `Info` reply's payload.
pub open spec fn take_info(data: Seq<u8>) -> Parsed<InfoModel> {
    after(
        take_string(data),
        |console: Seq<char>, d: Seq<u8>|
            after(
                take_info_numbers(console, d),
                |info: InfoModel, d: Seq<u8>|
                    after(
                        take_string(d),
                        |core_recorded: Seq<char>, d: Seq<u8>|
                            after(
                                take_string(d),
                                |core_running: Seq<char>, d: Seq<u8>|
                                    take_info_tail(
                                        InfoModel { core_recorded, core_running, ..info },
                                        d,
                                    ),
                            ),
                    ),
            ),
    )
}

/// A reply's payload, by its tag.
pub open spec fn take_reply(tag: u8, data: Seq<u8>) -> Parsed<ReplyModel> {
    if tag == TAG_R_HELLO {
        after(
            take_number(data, 4),
            |protocol: nat, d: Seq<u8>|
                after(
                    take_string(d),
                    |server: Seq<char>, d: Seq<u8>|
                        after(
                            take_list(d, take_string_item()),
                            |cores: Seq<Seq<char>>, d: Seq<u8>|
                                Ok(
                                    (
                                        ReplyModel::Hello {
                                            protocol: protocol as u32,
                                            server,
                                            cores,
                                        },
                                        d,
                                    ),
                                ),
                        ),
                ),
        )
    } else if tag == TAG_R_INFO {
        after(take_info(data), |info: InfoModel, d: Seq<u8>| Ok((ReplyModel::Info(info), d)))
    } else if tag == TAG_R_FRAME {
        after(
            take_number(data, 4),
            |id: nat, d: Seq<u8>|
                after(
                    take_number(d, 8),
                    |index: nat, d: Seq<u8>|
                        Ok(
                            (
                                ReplyModel::Frame { id: id as u32, index: index as u64, pixels: d },
                                Seq::empty(),
                            ),
                        ),
                ),
        )
    } else if tag == TAG_R_DONE {
        after(
            take_number(data, 4),
            |id: nat, d: Seq<u8>| Ok((ReplyModel::Done { id: id as u32 }, d)),
        )
    } else if tag == TAG_R_AUDIO {
        after(
            take_number(data, 4),
            |id: nat, d: Seq<u8>|
                after(
                    take_number(d, 8),
                    |first_frame: nat, d: Seq<u8>|
                        after(
                            take_number(d, 4),
                            |frames: nat, d: Seq<u8>|
                                after(
                                    take_list(d, take_sample_item()),
                                    |samples: Seq<i16>, d: Seq<u8>|
                                        Ok(
                                            (
                                                ReplyModel::Audio {
                                                    id: id as u32,
                                                    first_frame: first_frame as u64,
                                                    frames: frames as u32,
                                                    samples,
                                                },
                                                d,
                                            ),
                                        ),
                                ),
                        ),
                ),
        )
    } else if tag == TAG_R_CANCELLED {
        after(
            take_number(data, 4),
            |id: nat, d: Seq<u8>| Ok((ReplyModel::Cancelled { id: id as u32 }, d)),
        )
    } else if tag == TAG_R_ERROR {
        after(
            take_number(data, 4),
            |id: nat, d: Seq<u8>|
                after(
                    take_string(d),
                    |message: Seq<char>, d: Seq<u8>|
                        Ok((ReplyModel::Error { id: id as u32, message }, d)),
                ),
        )
    } else {
        Err(DecodeError::UnknownTag(tag))
    }
}

/// What a reply's tag and payload say.
pub open spec fn parse_reply(body: Seq<u8>) -> Result<ReplyModel, DecodeError> {
    finished(after(take_number(body, 1), |tag: nat, d: Seq<u8>| take_reply(tag as u8, d)))
}

// ---------------------------------------------------------------------------------------------
// Reading fields.

/// `std::string::String::from_utf8`: the string with these bytes if they are UTF-8, and nothing
/// otherwise.
#[verifier::external_body]
fn string_from_utf8(utf8: Vec<u8>) -> (r: Option<String>)
    ensures
        r is Some <==> valid_utf8(utf8@),
        r matches Some(s) ==> s@ == decode_utf8(utf8@),
{
    String::from_utf8(utf8).ok()
}

struct Decoder<'a> {
    bytes: &'a [u8],
}

impl<'a> Decoder<'a> {

    fn take(&mut self, n: usize) -> (r: Result<&'a [u8], DecodeError>)
        ensures
            match take_bytes(old(self).bytes@, n as nat) {
                Ok((b, rest)) => r matches Ok(head) && head@ == b && final(self).bytes@ == rest,
                Err(e) => r == Err::<&'a [u8], DecodeError>(e),
            },
    {
        let all: &'a [u8] = self.bytes;
        if all.len() < n {
            return Err(DecodeError::Truncated);
        }
        let head: &'a [u8] = slice_subrange(all, 0, n);
        self.bytes = slice_subrange(all, n, all.len());
        assert(all@.subrange(0, n as int) =~= all@.take(n as int));
        assert(all@.subrange(n as int, all@.len() as int) =~= all@.skip(n as int));
        Ok(head)
    }

    fn number(&mut self, width: usize) -> (r: Result<u64, DecodeError>)
        requires
            width <= 8,
        ensures
            match take_number(old(self).bytes@, width as nat) {
                Ok((n, rest)) => r == Ok::<u64, DecodeError>(n as u64) && n < bytes::byte_range(
                    width as nat,
                ) && n <= u64::MAX && final(self).bytes@ == rest,
                Err(e) => r == Err::<u64, DecodeError>(e),
            },
    {
        let b: &'a [u8] = match self.take(width) {
            Ok(b) => b,
            Err(e) => return Err(e),
        };
        let n: u64 = bytes::read_le(b, 0, width);
        assert(b@.subrange(0, width as int) =~= b@);
        Ok(n)
    }

    fn u8(&mut self) -> (r: Result<u8, DecodeError>)
        ensures
            match take_number(old(self).bytes@, 1) {
                Ok((n, rest)) => r == Ok::<u8, DecodeError>(n as u8) && n <= u8::MAX
                    && final(self).bytes@ == rest,
                Err(e) => r == Err::<u8, DecodeError>(e),
            },
    {
        proof {
            bytes::lemma_byte_ranges();
        }
        match self.number(1) {
            Ok(n) => Ok(n as u8),
            Err(e) => Err(e),
        }
    }

    fn u16(&mut self) -> (r: Result<u16, DecodeError>)
        ensures
            match take_number(old(self).bytes@, 2) {
                Ok((n, rest)) => r == Ok::<u16, DecodeError>(n as u16) && n <= u16::MAX
                    && final(self).bytes@ == rest,
                Err(e) => r == Err::<u16, DecodeError>(e),
            },
    {
        proof {
            bytes::lemma_byte_ranges();
        }
        match self.number(2) {
            Ok(n) => Ok(n as u16),
            Err(e) => Err(e),
        }
    }

    fn u32(&mut self) -> (r: Result<u32, DecodeError>)
        ensures
            match take_number(old(self).bytes@, 4) {
                Ok((n, rest)) => r == Ok::<u32, DecodeError>(n as u32) && n <= u32::MAX
                    && final(self).bytes@ == rest,
                Err(e) => r == Err::<u32, DecodeError>(e),
            },
    {
        proof {
            bytes::lemma_byte_ranges();
        }
        match self.number(4) {
            Ok(n) => Ok(n as u32),
            Err(e) => Err(e),
        }
    }

    fn u64(&mut self) -> (r: Result<u64, DecodeError>)
        ensures
            match take_number(old(self).bytes@, 8) {
                Ok((n, rest)) => r == Ok::<u64, DecodeError>(n as u64) && n <= u64::MAX
                    && final(self).bytes@ == rest,
                Err(e) => r == Err::<u64, DecodeError>(e),
            },
    {
        self.number(8)
    }

    fn string(&mut self) -> (r: Result<String, DecodeError>)
        ensures
            match take_string(old(self).bytes@) {
                Ok((s, rest)) => r matches Ok(string) && string@ == s && final(self).bytes@ == rest,
                Err(e) => r == Err::<String, DecodeError>(e),
            },
    {
        let len: u32 = match self.u32() {
            Ok(len) => len,
            Err(e) => return Err(e),
        };
        let utf8: &'a [u8] = match self.take(len as usize) {
            Ok(utf8) => utf8,
            Err(e) => return Err(e),
        };
        match string_from_utf8(slice_to_vec(utf8)) {
            Some(s) => Ok(s),
            None => Err(DecodeError::BadString),
        }
    }

    /// Everything that is left.
    fn rest(&mut self) -> (r: &'a [u8])
        ensures
            r@ == old(self).bytes@,
            final(self).bytes@ == Seq::<u8>::empty(),
    {
        let all: &'a [u8] = self.bytes;
        self.bytes = slice_subrange(all, all.len(), all.len());
        assert(self.bytes@ =~= Seq::<u8>::empty());
        all
    }

    fn finish(self) -> (r: Result<(), DecodeError>)
        ensures
            self.bytes@.len() == 0 ==> r is Ok,
            self.bytes@.len() > 0 ==> r == Err::<(), DecodeError>(
                DecodeError::TrailingBytes(self.bytes@.len() as usize),
            ),
    {
        if self.bytes.is_empty() {
            Ok(())
        } else {
            Err(DecodeError::TrailingBytes(self.bytes.len()))
        }
    }
}

// ---------------------------------------------------------------------------------------------
// Writing fields.

struct Encoder {
    out: Vec<u8>,
}

impl Encoder {
    fn u8(&mut self, v: u8)
        ensures
            final(self).out@ == old(self).out@ + seq![v],
    {
        self.out.push(v);
        assert(self.out@ =~= old(self).out@ + seq![v]);
    }

    fn flag(&mut self, v: bool)
        ensures
            final(self).out@ == old(self).out@ + flag_bytes(v),
    {
        self.u8(if v { 1 } else { 0 });
    }

    fn u32(&mut self, v: u32)
        ensures
            final(self).out@ == old(self).out@ + bytes::le_bytes(v as nat, 4),
    {
        bytes::push_le(&mut self.out, v as u64, 4);
    }

    fn u64(&mut self, v: u64)
        ensures
            final(self).out@ == old(self).out@ + bytes::le_bytes(v as nat, 8),
    {
        bytes::push_le(&mut self.out, v, 8);
    }

    /// A count of things that follow (the low 32 bits of it).
    fn count(&mut self, n: usize)
        ensures
            final(self).out@ == old(self).out@ + bytes::le_bytes(n as nat, 4),
    {
        bytes::push_le(&mut self.out, n as u64, 4);
    }

    fn raw(&mut self, b: &[u8])
        ensures
            final(self).out@ == old(self).out@ + b@,
    {
        self.out.extend_from_slice(b);
        assert(self.out@ =~= old(self).out@ + b@);
    }

    fn string(&mut self, s: &str)
        ensures
            final(self).out@ == old(self).out@ + string_bytes(s@),
    {
        let utf8: &[u8] = s.as_bytes();
        self.count(utf8.len());
        self.raw(utf8);
        assert(self.out@ =~= old(self).out@ + string_bytes(s@));
    }
}

/// Append a list of strings with its count.
fn push_strings(e: &mut Encoder, list: &Vec<String>)
    ensures
        final(e).out@ == old(e).out@ + counted_list(texts(list@), string_item()),
{
    e.count(list.len());
    let ghost base = e.out@;
    let ghost all = texts(list@);
    let mut i: usize = 0;
    assert(all.skip(0) =~= all);
    while i < list.len()
        invariant
            i <= list@.len(),
            all == texts(list@),
            base + list_bytes(all, string_item()) == e.out@ + list_bytes(
                all.skip(i as int),
                string_item(),
            ),
        decreases list@.len() - i,
    {
        let ghost before = e.out@;
        let ghost rest = all.skip(i as int);
        e.string(list[i].as_str());
        i = i + 1;
        assert(rest.skip(1) =~= all.skip(i as int));
        assert(before + (string_item()(rest[0]) + list_bytes(rest.skip(1), string_item()))
            =~= e.out@ + list_bytes(rest.skip(1), string_item()));
    }
    assert(all.skip(i as int) =~= Seq::empty());
    assert(e.out@ =~= old(e).out@ + counted_list(all, string_item()));
}

/// Append a list of frame indices with its count.
fn push_indices(e: &mut Encoder, list: &Vec<u64>)
    ensures
        final(e).out@ == old(e).out@ + counted_list(list@, index_item()),
{
    e.count(list.len());
    let ghost base = e.out@;
    let ghost all = list@;
    let mut i: usize = 0;
    assert(all.skip(0) =~= all);
    while i < list.len()
        invariant
            i <= list@.len(),
            all == list@,
            base + list_bytes(all, index_item()) == e.out@ + list_bytes(
                all.skip(i as int),
                index_item(),
            ),
        decreases list@.len() - i,
    {
        let ghost before = e.out@;
        let ghost rest = all.skip(i as int);
        e.u64(list[i]);
        i = i + 1;
        assert(rest.skip(1) =~= all.skip(i as int));
        assert(before + (index_item()(rest[0]) + list_bytes(rest.skip(1), index_item())) =~= e.out@
            + list_bytes(rest.skip(1), index_item()));
    }
    assert(all.skip(i as int) =~= Seq::empty());
    assert(e.out@ =~= old(e).out@ + counted_list(all, index_item()));
}

/// Append a list of bookmarks with its count.
fn push_bookmarks(e: &mut Encoder, list: &Vec<(String, u64)>)
    ensures
        final(e).out@ == old(e).out@ + counted_list(named(list@), bookmark_item()),
{
    e.count(list.len());
    let ghost base = e.out@;
    let ghost all = named(list@);
    let mut i: usize = 0;
    assert(all.skip(0) =~= all);
    while i < list.len()
        invariant
            i <= list@.len(),
            all == named(list@),
            base + list_bytes(all, bookmark_item()) == e.out@ + list_bytes(
                all.skip(i as int),
                bookmark_item(),
            ),
        decreases list@.len() - i,
    {
        let ghost before = e.out@;
        let ghost rest = all.skip(i as int);
        e.string(list[i].0.as_str());
        e.u64(list[i].1);
        i = i + 1;
        assert(rest.skip(1) =~= all.skip(i as int));
        assert(before + (bookmark_item()(rest[0]) + list_bytes(rest.skip(1), bookmark_item()))
            =~= e.out@ + list_bytes(rest.skip(1), bookmark_item()));
    }
    assert(all.skip(i as int) =~= Seq::empty());
    assert(e.out@ =~= old(e).out@ + counted_list(all, bookmark_item()));
}

/// Append a list of counters with its count.
fn push_counters(e: &mut Encoder, list: &Vec<(String, i64)>)
    ensures
        final(e).out@ == old(e).out@ + counted_list(named(list@), counter_item()),
{
    e.count(list.len());
    let ghost base = e.out@;
    let ghost all = named(list@);
    let mut i: usize = 0;
    assert(all.skip(0) =~= all);
    while i < list.len()
        invariant
            i <= list@.len(),
            all == named(list@),
            base + list_bytes(all, counter_item()) == e.out@ + list_bytes(
                all.skip(i as int),
                counter_item(),
            ),
        decreases list@.len() - i,
    {
        let ghost before = e.out@;
        let ghost rest = all.skip(i as int);
        e.string(list[i].0.as_str());
        e.u64(list[i].1 as u64);
        i = i + 1;
        assert(rest.skip(1) =~= all.skip(i as int));
        assert(before + (counter_item()(rest[0]) + list_bytes(rest.skip(1), counter_item()))
            =~= e.out@ + list_bytes(rest.skip(1), counter_item()));
    }
    assert(all.skip(i as int) =~= Seq::empty());
    assert(e.out@ =~= old(e).out@ + counted_list(all, counter_item()));
}

/// Append a list of samples with its count.
fn push_samples(e: &mut Encoder, list: &Vec<i16>)
    ensures
        final(e).out@ == old(e).out@ + counted_list(list@, sample_item()),
{
    e.count(list.len());
    let ghost base = e.out@;
    let ghost all = list@;
    let mut i: usize = 0;
    assert(all.skip(0) =~= all);
    while i < list.len()
        invariant
            i <= list@.len(),
            all == list@,
            base + list_bytes(all, sample_item()) == e.out@ + list_bytes(
                all.skip(i as int),
                sample_item(),
            ),
        decreases list@.len() - i,
    {
        let ghost before = e.out@;
        let ghost rest = all.skip(i as int);
        bytes::push_le(&mut e.out, (list[i] as u16) as u64, 2);
        i = i + 1;
        assert(rest.skip(1) =~= all.skip(i as int));
        assert(before + (sample_item()(rest[0]) + list_bytes(rest.skip(1), sample_item()))
            =~= e.out@ + list_bytes(rest.skip(1), sample_item()));
    }
    assert(all.skip(i as int) =~= Seq::empty());
    assert(e.out@ =~= old(e).out@ + counted_list(all, sample_item()));
}

/// Append one framed message (length, then `body`, which is its tag and payload) to `out`.
fn frame(out: &mut Vec<u8>, body: Vec<u8>)
    ensures
        final(out)@ == old(out)@ + framed(body@),
{
    let mut body: Vec<u8> = body;
    let ghost b = body@;
    bytes::push_le(out, body.len() as u64, 4);
    out.append(&mut body);
    assert(out@ =~= old(out)@ + framed(b));
}

impl Request {
    /// Append the framed message to `out` (what a client does).
    pub fn encode(&self, out: &mut Vec<u8>)
        ensures
            final(out)@ == old(out)@ + framed(request_body(self@)),
    {
        let mut e = Encoder { out: Vec::new() };
        match self {
            Request::Hello { protocol } => {
                e.u8(TAG_HELLO);
                e.u32(*protocol);
            },
            Request::Open { rom, replay, layout, audio } => {
                e.u8(TAG_OPEN);
                e.string(rom.as_str());
                e.string(replay.as_str());
                e.u8(*layout);
                e.flag(*audio);
            },
            Request::Frame { id, index } => {
                e.u8(TAG_FRAME);
                e.u32(*id);
                e.u64(*index);
            },
            Request::Run { id, from, to } => {
                e.u8(TAG_RUN);
                e.u32(*id);
                e.u64(*from);
                e.u64(*to);
            },
            Request::Audio { id, first_frame, frames } => {
                e.u8(TAG_AUDIO);
                e.u32(*id);
                e.u64(*first_frame);
                e.u32(*frames);
            },
            Request::Cancel { id } => {
                e.u8(TAG_CANCEL);
                e.u32(*id);
            },
            Request::Close => e.u8(TAG_CLOSE),
        }
        assert(e.out@ =~= request_body(self@));
        frame(out, e.out);
    }

    /// Decode one message body (tag + payload, without the length prefix).
    pub fn decode(body: &[u8]) -> (r: Result<Request, DecodeError>)
        ensures
            match parse_request(body@) {
                Ok(request) => r matches Ok(decoded) && decoded@ == request,
                Err(e) => r == Err::<Request, DecodeError>(e),
            },
    {
        let mut d = Decoder { bytes: body };
        let tag: u8 = d.u8()?;
        let request = match tag {
            TAG_HELLO => Request::Hello { protocol: d.u32()? },
            TAG_OPEN => {
                let rom = d.string()?;
                let replay = d.string()?;
                let layout: u8 = d.u8()?;
                let audio: u8 = d.u8()?;
                Request::Open { rom, replay, layout, audio: audio != 0 }
            },
            TAG_FRAME => {
                let id: u32 = d.u32()?;
                Request::Frame { id, index: d.u64()? }
            },
            TAG_RUN => {
                let id: u32 = d.u32()?;
                let from: u64 = d.u64()?;
                Request::Run { id, from, to: d.u64()? }
            },
            TAG_AUDIO => {
                let id: u32 = d.u32()?;
                let first_frame: u64 = d.u64()?;
                Request::Audio { id, first_frame, frames: d.u32()? }
            },
            TAG_CANCEL => Request::Cancel { id: d.u32()? },
            TAG_CLOSE => Request::Close,
            other => return Err(DecodeError::UnknownTag(other)),
        };
        d.finish()?;
        Ok(request)
    }
}

/// The payload of an `Info` reply up to its lists.
fn info_head_of(info: &Info) -> (r: Vec<u8>)
    ensures
        r@ == info_head(info@),
{
    let mut e = Encoder { out: Vec::new() };
    e.string(info.console.as_str());
    assert(e.out@ =~= string_bytes(info.console@));
    e.u32(info.width);
    e.u32(info.height);
    e.u32(info.fps_num);
    e.u32(info.fps_den);
    e.u64(info.frames);
    e.u32(info.sample_rate);
    e.flag(info.rom_ok);
    e.string(info.core_recorded.as_str());
    e.string(info.core_running.as_str());
    e.out
}

/// The lists of an `Info` reply's payload.
fn info_tail_of(info: &Info) -> (r: Vec<u8>)
    ensures
        r@ == info_tail(info@),
{
    let mut e = Encoder { out: Vec::new() };
    push_indices(&mut e, &info.keyframes);
    assert(e.out@ =~= counted_list(info.keyframes@, index_item()));
    push_bookmarks(&mut e, &info.bookmarks);
    let ghost before = e.out@;
    match info.crop {
        Some((start, end)) => {
            e.flag(true);
            e.u64(start);
            e.u64(end);
        },
        None => {
            e.flag(false);
            e.u64(0);
            e.u64(0);
        },
    }
    assert(e.out@ =~= before + crop_bytes(info.crop));
    push_counters(&mut e, &info.counters);
    e.out
}

impl Reply {
    /// Append the framed message to `out`.
    pub fn encode(&self, out: &mut Vec<u8>)
        ensures
            final(out)@ == old(out)@ + framed(reply_body(self@)),
    {
        let mut e = Encoder { out: Vec::new() };
        match self {
            Reply::Hello { protocol, server, cores } => {
                e.u8(TAG_R_HELLO);
                e.u32(*protocol);
                e.string(server.as_str());
                push_strings(&mut e, cores);
            },
            Reply::Info(info) => {
                let head: Vec<u8> = info_head_of(info);
                let tail: Vec<u8> = info_tail_of(info);
                e.u8(TAG_R_INFO);
                e.raw(head.as_slice());
                e.raw(tail.as_slice());
            },
            Reply::Frame { id, index, pixels } => {
                e.u8(TAG_R_FRAME);
                e.u32(*id);
                e.u64(*index);
                e.raw(pixels.as_slice());
            },
            Reply::Done { id } => {
                e.u8(TAG_R_DONE);
                e.u32(*id);
            },
            Reply::Audio { id, first_frame, frames, samples } => {
                e.u8(TAG_R_AUDIO);
                e.u32(*id);
                e.u64(*first_frame);
                e.u32(*frames);
                push_samples(&mut e, samples);
            },
            Reply::Cancelled { id } => {
                e.u8(TAG_R_CANCELLED);
                e.u32(*id);
            },
            Reply::Error { id, message } => {
                e.u8(TAG_R_ERROR);
                e.u32(*id);
                e.string(message.as_str());
            },
        }
        assert(e.out@ =~= reply_body(self@));
        frame(out, e.out);
    }
}

/// Read a list of strings.
fn take_strings(d: &mut Decoder<'_>) -> (r: Result<Vec<String>, DecodeError>)
    ensures
        match take_list(old(d).bytes@, take_string_item()) {
            Ok((list, rest)) => r matches Ok(v) && texts(v@) == list && final(d).bytes@ == rest,
            Err(e) => r == Err::<Vec<String>, DecodeError>(e),
        },
{
    let n: u32 = d.u32()?;
    let ghost d0 = d.bytes@;
    let ghost whole = take_items(d0, n as nat, take_string_item());
    let mut v: Vec<String> = Vec::new();
    let mut i: u32 = 0;
    proof {
        assert(texts(v@) =~= Seq::<Seq<char>>::empty());
        if let Ok((all, _)) = whole {
            assert(Seq::<Seq<char>>::empty() + all =~= all);
        }
    }
    while i < n
        invariant
            i <= n,
            take_list(old(d).bytes@, take_string_item()) == whole,
            match (whole, take_items(d.bytes@, (n - i) as nat, take_string_item())) {
                (Ok((all, last)), Ok((more, end))) => all == texts(v@) + more && last == end,
                (Err(a), Err(b)) => a == b,
                _ => false,
            },
        decreases n - i,
    {
        let ghost before = texts(v@);
        let ghost here = d.bytes@;
        v.push(d.string()?);
        i = i + 1;
        proof {
            let got = texts(v@);
            assert(got =~= before.push(got.last()));
            if let Ok((more, _)) = take_items(d.bytes@, (n - i) as nat, take_string_item()) {
                assert(before + (seq![got.last()] + more) =~= got + more);
            }
        }
    }
    assert(texts(v@) + Seq::<Seq<char>>::empty() =~= texts(v@));
    Ok(v)
}

/// Read a list of frame indices.
fn take_indices(d: &mut Decoder<'_>) -> (r: Result<Vec<u64>, DecodeError>)
    ensures
        match take_list(old(d).bytes@, take_index_item()) {
            Ok((list, rest)) => r matches Ok(v) && v@ == list && final(d).bytes@ == rest,
            Err(e) => r == Err::<Vec<u64>, DecodeError>(e),
        },
{
    let n: u32 = d.u32()?;
    let ghost d0 = d.bytes@;
    let ghost whole = take_items(d0, n as nat, take_index_item());
    let mut v: Vec<u64> = Vec::new();
    let mut i: u32 = 0;
    proof {
        assert(v@ =~= Seq::<u64>::empty());
        if let Ok((all, _)) = whole {
            assert(Seq::<u64>::empty() + all =~= all);
        }
    }
    while i < n
        invariant
            i <= n,
            take_list(old(d).bytes@, take_index_item()) == whole,
            match (whole, take_items(d.bytes@, (n - i) as nat, take_index_item())) {
                (Ok((all, last)), Ok((more, end))) => all == v@ + more && last == end,
                (Err(a), Err(b)) => a == b,
                _ => false,
            },
        decreases n - i,
    {
        let ghost before = v@;
        let ghost here = d.bytes@;
        v.push(d.u64()?);
        i = i + 1;
        proof {
            let got = v@;
            assert(got =~= before.push(got.last()));
            if let Ok((more, _)) = take_items(d.bytes@, (n - i) as nat, take_index_item()) {
                assert(before + (seq![got.last()] + more) =~= got + more);
            }
        }
    }
    assert(v@ + Seq::<u64>::empty() =~= v@);
    Ok(v)
}

/// Read a list of bookmarks.
fn take_bookmarks(d: &mut Decoder<'_>) -> (r: Result<Vec<(String, u64)>, DecodeError>)
    ensures
        match take_list(old(d).bytes@, take_bookmark_item()) {
            Ok((list, rest)) => r matches Ok(v) && named(v@) == list && final(d).bytes@ == rest,
            Err(e) => r == Err::<Vec<(String, u64)>, DecodeError>(e),
        },
{
    let n: u32 = d.u32()?;
    let ghost d0 = d.bytes@;
    let ghost whole = take_items(d0, n as nat, take_bookmark_item());
    let mut v: Vec<(String, u64)> = Vec::new();
    let mut i: u32 = 0;
    proof {
        assert(named(v@) =~= Seq::<(Seq<char>, u64)>::empty());
        if let Ok((all, _)) = whole {
            assert(Seq::<(Seq<char>, u64)>::empty() + all =~= all);
        }
    }
    while i < n
        invariant
            i <= n,
            take_list(old(d).bytes@, take_bookmark_item()) == whole,
            match (whole, take_items(d.bytes@, (n - i) as nat, take_bookmark_item())) {
                (Ok((all, last)), Ok((more, end))) => all == named(v@) + more && last == end,
                (Err(a), Err(b)) => a == b,
                _ => false,
            },
        decreases n - i,
    {
        let ghost before = named(v@);
        let ghost here = d.bytes@;
        let name = d.string()?;
        let frame: u64 = d.u64()?;
        v.push((name, frame));
        i = i + 1;
        proof {
            let got = named(v@);
            assert(got =~= before.push(got.last()));
            if let Ok((more, _)) = take_items(d.bytes@, (n - i) as nat, take_bookmark_item()) {
                assert(before + (seq![got.last()] + more) =~= got + more);
            }
        }
    }
    assert(named(v@) + Seq::<(Seq<char>, u64)>::empty() =~= named(v@));
    Ok(v)
}

/// Read a list of counters.
fn take_counters(d: &mut Decoder<'_>) -> (r: Result<Vec<(String, i64)>, DecodeError>)
    ensures
        match take_list(old(d).bytes@, take_counter_item()) {
            Ok((list, rest)) => r matches Ok(v) && named(v@) == list && final(d).bytes@ == rest,
            Err(e) => r == Err::<Vec<(String, i64)>, DecodeError>(e),
        },
{
    let n: u32 = d.u32()?;
    let ghost d0 = d.bytes@;
    let ghost whole = take_items(d0, n as nat, take_counter_item());
    let mut v: Vec<(String, i64)> = Vec::new();
    let mut i: u32 = 0;
    proof {
        assert(named(v@) =~= Seq::<(Seq<char>, i64)>::empty());
        if let Ok((all, _)) = whole {
            assert(Seq::<(Seq<char>, i64)>::empty() + all =~= all);
        }
    }
    while i < n
        invariant
            i <= n,
            take_list(old(d).bytes@, take_counter_item()) == whole,
            match (whole, take_items(d.bytes@, (n - i) as nat, take_counter_item())) {
                (Ok((all, last)), Ok((more, end))) => all == named(v@) + more && last == end,
                (Err(a), Err(b)) => a == b,
                _ => false,
            },
        decreases n - i,
    {
        let ghost before = named(v@);
        let ghost here = d.bytes@;
        let name = d.string()?;
        let value: u64 = d.u64()?;
        v.push((name, value as i64));
        i = i + 1;
        proof {
            let got = named(v@);
            assert(got =~= before.push(got.last()));
            if let Ok((more, _)) = take_items(d.bytes@, (n - i) as nat, take_counter_item()) {
                assert(before + (seq![got.last()] + more) =~= got + more);
            }
        }
    }
    assert(named(v@) + Seq::<(Seq<char>, i64)>::empty() =~= named(v@));
    Ok(v)
}

/// Read a list of samples.
fn take_samples(d: &mut Decoder<'_>) -> (r: Result<Vec<i16>, DecodeError>)
    ensures
        match take_list(old(d).bytes@, take_sample_item()) {
            Ok((list, rest)) => r matches Ok(v) && v@ == list && final(d).bytes@ == rest,
            Err(e) => r == Err::<Vec<i16>, DecodeError>(e),
        },
{
    let n: u32 = d.u32()?;
    let ghost d0 = d.bytes@;
    let ghost whole = take_items(d0, n as nat, take_sample_item());
    let mut v: Vec<i16> = Vec::new();
    let mut i: u32 = 0;
    proof {
        assert(v@ =~= Seq::<i16>::empty());
        if let Ok((all, _)) = whole {
            assert(Seq::<i16>::empty() + all =~= all);
        }
    }
    while i < n
        invariant
            i <= n,
            take_list(old(d).bytes@, take_sample_item()) == whole,
            match (whole, take_items(d.bytes@, (n - i) as nat, take_sample_item())) {
                (Ok((all, last)), Ok((more, end))) => all == v@ + more && last == end,
                (Err(a), Err(b)) => a == b,
                _ => false,
            },
        decreases n - i,
    {
        let ghost before = v@;
        let ghost here = d.bytes@;
        let sample: u16 = d.u16()?;
        v.push(sample as i16);
        i = i + 1;
        proof {
            let got = v@;
            assert(got =~= before.push(got.last()));
            if let Ok((more, _)) = take_items(d.bytes@, (n - i) as nat, take_sample_item()) {
                assert(before + (seq![got.last()] + more) =~= got + more);
            }
        }
    }
    assert(v@ + Seq::<i16>::empty() =~= v@);
    Ok(v)
}

/// Read an `Info` reply's payload.
fn decode_info(d: &mut Decoder<'_>) -> (r: Result<Info, DecodeError>)
    ensures
        match take_info(old(d).bytes@) {
            Ok((info, rest)) => r matches Ok(decoded) && decoded@ == info && final(d).bytes@ == rest,
            Err(e) => r == Err::<Info, DecodeError>(e),
        },
{
    let console = d.string()?;
    let width: u32 = d.u32()?;
    let height: u32 = d.u32()?;
    let fps_num: u32 = d.u32()?;
    let fps_den: u32 = d.u32()?;
    let frames: u64 = d.u64()?;
    let sample_rate: u32 = d.u32()?;
    let rom_ok: u8 = d.u8()?;
    let core_recorded = d.string()?;
    let core_running = d.string()?;
    let keyframes = take_indices(d)?;
    let bookmarks = take_bookmarks(d)?;
    let has_crop: u8 = d.u8()?;
    let crop_start: u64 = d.u64()?;
    let crop_end: u64 = d.u64()?;
    let counters = take_counters(d)?;
    Ok(
        Info {
            console,
            width,
            height,
            fps_num,
            fps_den,
            frames,
            sample_rate,
            rom_ok: rom_ok != 0,
            core_recorded,
            core_running,
            keyframes,
            bookmarks,
            crop: if has_crop != 0 {
                Some((crop_start, crop_end))
            } else {
                None
            },
            counters,
        },
    )
}

impl Reply {
    /// Decode one message body (what a client does).
    pub fn decode(body: &[u8]) -> (r: Result<Reply, DecodeError>)
        ensures
            match parse_reply(body@) {
                Ok(reply) => r matches Ok(decoded) && decoded@ == reply,
                Err(e) => r == Err::<Reply, DecodeError>(e),
            },
    {
        let mut d = Decoder { bytes: body };
        let tag: u8 = d.u8()?;
        let reply = match tag {
            TAG_R_HELLO => {
                let protocol: u32 = d.u32()?;
                let server = d.string()?;
                let cores = take_strings(&mut d)?;
                Reply::Hello { protocol, server, cores }
            },
            TAG_R_INFO => Reply::Info(decode_info(&mut d)?),
            TAG_R_FRAME => {
                let id: u32 = d.u32()?;
                let index: u64 = d.u64()?;
                let pixels: Vec<u8> = slice_to_vec(d.rest());
                Reply::Frame { id, index, pixels }
            },
            TAG_R_DONE => Reply::Done { id: d.u32()? },
            TAG_R_AUDIO => {
                let id: u32 = d.u32()?;
                let first_frame: u64 = d.u64()?;
                let frames: u32 = d.u32()?;
                let samples = take_samples(&mut d)?;
                Reply::Audio { id, first_frame, frames, samples }
            },
            TAG_R_CANCELLED => Reply::Cancelled { id: d.u32()? },
            TAG_R_ERROR => {
                let id: u32 = d.u32()?;
                Reply::Error { id, message: d.string()? }
            },
            other => return Err(DecodeError::UnknownTag(other)),
        };
        d.finish()?;
        Ok(reply)
    }
}

// ---------------------------------------------------------------------------------------------
// Messages in a stream of bytes.

/// Why no message could be read from a stream.
#[derive(Copy, Clone, Debug, PartialEq, Eq, Structural)]
pub enum ReadError {
    /// The input ends inside a message.
    UnexpectedEof,
    /// The input is not a run of messages.
    InvalidData(DecodeError),
}

/// What reading one message off the front of a stream finds: its body and what follows it, `None`
/// at a clean end of input, or what is wrong.
pub open spec fn next_message(input: Seq<u8>, max_len: u32) -> Result<
    Option<(Seq<u8>, Seq<u8>)>,
    ReadError,
> {
    if input.len() == 0 {
        Ok(None)
    } else if input.len() < 4 {
        Err(ReadError::UnexpectedEof)
    } else {
        let len = bytes::le_value(input.take(4));
        if len == 0 || len > max_len {
            Err(ReadError::InvalidData(DecodeError::TooLong(len as u32)))
        } else if input.len() < 4 + len {
            Err(ReadError::UnexpectedEof)
        } else {
            Ok(Some((input.subrange(4, 4 + len as int), input.skip(4 + len as int))))
        }
    }
}

/// The length a message's four length bytes announce, if a message may have it: not zero, and at
/// most `max_len`.
pub fn message_length(header: &[u8], max_len: u32) -> (r: Result<u32, DecodeError>)
    requires
        header@.len() == 4,
    ensures
        ({
            let len = bytes::le_value(header@);
            &&& len <= u32::MAX
            &&& r == (if len == 0 || len > max_len {
                Err::<u32, DecodeError>(DecodeError::TooLong(len as u32))
            } else {
                Ok(len as u32)
            })
        }),
{
    proof {
        bytes::lemma_byte_ranges();
        assert(header@.subrange(0, 4) =~= header@);
    }
    let len: u32 = bytes::read_le(header, 0, 4) as u32;
    if len == 0 || len > max_len {
        return Err(DecodeError::TooLong(len));
    }
    Ok(len)
}

/// Read one framed message body (tag + payload) off the front of `input`. `Ok(None)` at a clean
/// end of input, [`ReadError::UnexpectedEof`] if the input ends inside a message. The input is
/// used up unless a whole message was there.
fn read_message_up_to<'a>(input: &mut &'a [u8], max_len: u32) -> (r: Result<
    Option<&'a [u8]>,
    ReadError,
>)
    ensures
        match next_message(old(input)@, max_len) {
            Ok(Some((body, rest))) => r matches Ok(Some(read)) && read@ == body && final(input)@
                == rest,
            Ok(None) => r == Ok::<Option<&'a [u8]>, ReadError>(None) && final(input)@.len() == 0,
            Err(e) => r == Err::<Option<&'a [u8]>, ReadError>(e),
        },
{
    let all: &'a [u8] = *input;
    if all.len() == 0 {
        return Ok(None);
    }
    if all.len() < 4 {
        *input = slice_subrange(all, all.len(), all.len());
        return Err(ReadError::UnexpectedEof);
    }
    let header: &'a [u8] = slice_subrange(all, 0, 4);
    assert(header@ =~= all@.take(4));
    let len: usize = match message_length(header, max_len) {
        Ok(len) => len as usize,
        Err(e) => {
            *input = slice_subrange(all, 4, all.len());
            return Err(ReadError::InvalidData(e));
        },
    };
    if all.len() - 4 < len {
        *input = slice_subrange(all, all.len(), all.len());
        return Err(ReadError::UnexpectedEof);
    }
    *input = slice_subrange(all, 4 + len, all.len());
    assert(input@ =~= all@.skip(4 + len as int));
    Ok(Some(slice_subrange(all, 4, 4 + len)))
}

impl Request {
    /// Read one framed request off the front of `input`. `Ok(None)` at a clean end of input.
    pub fn read(input: &mut &[u8]) -> (r: Result<Option<Result<Request, DecodeError>>, ReadError>)
        ensures
            match next_message(old(input)@, MAX_REQUEST_LENGTH) {
                Ok(Some((body, rest))) => final(input)@ == rest && match parse_request(body) {
                    Ok(request) => r matches Ok(Some(Ok(decoded))) && decoded@ == request,
                    Err(e) => r matches Ok(Some(Err(found))) && found == e,
                },
                Ok(None) => r matches Ok(None) && final(input)@.len() == 0,
                Err(e) => r matches Err(found) && found == e,
            },
    {
        match read_message_up_to(input, MAX_REQUEST_LENGTH) {
            Ok(Some(body)) => Ok(Some(Request::decode(body))),
            Ok(None) => Ok(None),
            Err(e) => Err(e),
        }
    }
}

impl Reply {
    /// Read one framed reply off the front of `input`. `Ok(None)` at a clean end of input.
    pub fn read(input: &mut &[u8]) -> (r: Result<Option<Result<Reply, DecodeError>>, ReadError>)
        ensures
            match next_message(old(input)@, u32::MAX) {
                Ok(Some((body, rest))) => final(input)@ == rest && match parse_reply(body) {
                    Ok(reply) => r matches Ok(Some(Ok(decoded))) && decoded@ == reply,
                    Err(e) => r matches Ok(Some(Err(found))) && found == e,
                },
                Ok(None) => r matches Ok(None) && final(input)@.len() == 0,
                Err(e) => r matches Err(found) && found == e,
            },
    {
        match read_message_up_to(input, u32::MAX) {
            Ok(Some(body)) => Ok(Some(Reply::decode(body))),
            Ok(None) => Ok(None),
            Err(e) => Err(e),
        }
    }
}

impl DecodeError {
    /// What the error says.
    pub open spec fn text(self) -> Seq<char> {
        match self {
            DecodeError::Truncated => "message is shorter than its fields"@,
            DecodeError::UnknownTag(t) => "unknown message tag 0x"@ + text::hex_byte(t),
            DecodeError::BadString => "string is not UTF-8"@,
            DecodeError::TrailingBytes(n) => text::decimal(n as nat)
                + " unexpected trailing bytes"@,
            DecodeError::TooLong(n) => "message of "@ + text::decimal(n as nat)
                + " bytes is longer than allowed"@,
        }
    }

    /// The error as a message to read.
    pub fn message(&self) -> (r: String)
        ensures
            r@ == self.text(),
    {
        match self {
            DecodeError::Truncated => "message is shorter than its fields".to_owned(),
            DecodeError::UnknownTag(t) => {
                let mut r = "unknown message tag 0x".to_owned();
                text::push_hex_byte(&mut r, *t);
                r
            },
            DecodeError::BadString => "string is not UTF-8".to_owned(),
            DecodeError::TrailingBytes(n) => text::counted(*n as u64, " unexpected trailing bytes"),
            DecodeError::TooLong(n) => text::numbered(
                "message of ",
                *n as u64,
                " bytes is longer than allowed",
            ),
        }
    }
}

} // verus!
