//! The daemon's socket: where it listens, the permissions it is bound with, and the
//! framing of what crosses it.

use vstd::prelude::*;

use crate::error::Error;
use crate::memory::StoreLocation;

verus! {

/// The socket that the mind's daemon listens on.
#[derive(Debug, Clone, PartialEq, Eq)]
pub struct MindDaemonEndpoint {
    socket: String,
}

impl MindDaemonEndpoint {
    pub closed spec fn path(&self) -> Seq<char> {
        self.socket@
    }

    pub fn new(socket: String) -> (endpoint: Self)
        ensures
            endpoint.path() == socket@,
    {
        MindDaemonEndpoint { socket }
    }

    /// The socket's path.
    pub fn as_path(&self) -> (path: &str)
        ensures
            path@ == self.path(),
    {
        self.socket.as_str()
    }

    pub fn duplicate(&self) -> (copy: Self)
        ensures
            copy.path() == self.path(),
    {
        MindDaemonEndpoint { socket: self.socket.clone() }
    }
}

/// The value of an octal digit, if `digit` is one.
pub open spec fn octal_digit(digit: char) -> Option<int> {
    if '0' <= digit && digit <= '7' {
        Some(digit as int - '0' as int)
    } else {
        None
    }
}

/// The value of a string of octal digits, most significant first; `None` when a
/// character is not an octal digit.
pub open spec fn octal_value(digits: Seq<char>) -> Option<int>
    decreases digits.len(),
{
    if digits.len() == 0 {
        Some(0)
    } else {
        match (octal_value(digits.drop_last()), octal_digit(digits.last())) {
            (Some(high), Some(low)) => Some(high * 8 + low),
            _ => None,
        }
    }
}

/// The digits of an octal number as text: all of it, or all after one leading `+`.
pub open spec fn octal_digits(text: Seq<char>) -> Seq<char> {
    if text.len() > 0 && text[0] == '+' {
        text.drop_first()
    } else {
        text
    }
}

/// The `u32` that the text spells in octal, if it spells one: an optional `+`, then at
/// least one octal digit, and a value that fits in `u32`.
pub open spec fn octal_u32(text: Seq<char>) -> Option<u32> {
    let digits = octal_digits(text);
    if digits.len() == 0 {
        None
    } else {
        match octal_value(digits) {
            Some(value) => if value <= u32::MAX {
                Some(value as u32)
            } else {
                None
            },
            None => None,
        }
    }
}

proof fn lemma_octal_value_nonnegative(digits: Seq<char>)
    ensures
        octal_value(digits) matches Some(value) ==> value >= 0,
    decreases digits.len(),
{
    if digits.len() > 0 {
        lemma_octal_value_nonnegative(digits.drop_last());
    }
}

/// The permission bits that the socket is bound with.
#[derive(Debug, Clone, Copy, PartialEq, Eq)]
pub struct MindSocketMode {
    pub value: u32,
}

impl MindSocketMode {
    pub fn new(value: u32) -> (mode: Self)
        ensures
            mode.value == value,
    {
        MindSocketMode { value }
    }

    pub fn as_octal(self) -> (value: u32)
        ensures
            value == self.value,
    {
        self.value
    }

    /// The mode that `text` spells in octal (see `octal_u32`), as the environment
    /// gives it.
    pub fn from_octal_text(text: &str) -> (mode: Option<Self>)
        ensures
            match octal_u32(text@) {
                Some(value) => mode == Some(MindSocketMode { value }),
                None => mode is None,
            },
    {
        let length = text.unicode_len();
        let mut index: usize = 0;
        if length > 0 && text.get_char(0) == '+' {
            index = 1;
        }
        let ghost digits = octal_digits(text@);
        assert(digits =~= text@.skip(index as int));
        if index == length {
            return None;
        }
        let start = index;
        let mut value: u64 = 0;
        while index < length
            invariant
                start <= index <= length,
                length == text@.len(),
                digits == text@.skip(start as int),
                digits == octal_digits(text@),
                octal_value(text@.subrange(start as int, index as int)) == Some(value as int),
                value <= u32::MAX,
            decreases length - index,
        {
            let digit = text.get_char(index);
            assert(text@.subrange(start as int, index as int + 1).drop_last() =~= text@.subrange(
                start as int,
                index as int,
            ));
            if digit < '0' || digit > '7' {
                proof {
                    lemma_octal_prefix_invalid(digits, (index - start) as int);
                    assert(digits.subrange(0, (index - start) as int + 1) =~= text@.subrange(
                        start as int,
                        index as int + 1,
                    ));
                }
                return None;
            }
            let next = value * 8 + ((digit as u32) - ('0' as u32)) as u64;
            if next > u32::MAX as u64 {
                proof {
                    assert(digits.subrange(0, (index - start) as int + 1) =~= text@.subrange(
                        start as int,
                        index as int + 1,
                    ));
                    assert(text@.subrange(start as int, index as int + 1).last() == digit);
                    assert(octal_value(text@.subrange(start as int, index as int + 1)) == Some(
                        value * 8 + (digit as int - '0' as int),
                    ));
                    lemma_octal_prefix_too_large(digits, (index - start) as int);
                }
                return None;
            }
            value = next;
            index = index + 1;
        }
        assert(text@.subrange(start as int, length as int) =~= digits);
        Some(MindSocketMode { value: value as u32 })
    }
}

/// A prefix of the digits that holds a non-digit leaves the whole text without a
/// value.
proof fn lemma_octal_prefix_invalid(digits: Seq<char>, at: int)
    requires
        0 <= at < digits.len(),
        octal_digit(digits[at]) is None,
    ensures
        octal_value(digits) is None,
    decreases digits.len(),
{
    if at < digits.len() - 1 {
        lemma_octal_prefix_invalid(digits.drop_last(), at);
    }
}

/// Once a prefix of the digits is worth more than `u32::MAX`, the whole text is
/// worth more too, or has no value.
proof fn lemma_octal_prefix_too_large(digits: Seq<char>, at: int)
    requires
        0 <= at < digits.len(),
        octal_value(digits.subrange(0, at + 1)) matches Some(value) && value > u32::MAX,
    ensures
        octal_value(digits) matches Some(value) ==> value > u32::MAX,
    decreases digits.len(),
{
    if at < digits.len() - 1 {
        assert(digits.drop_last().subrange(0, at + 1) =~= digits.subrange(0, at + 1));
        lemma_octal_prefix_too_large(digits.drop_last(), at);
        lemma_octal_value_nonnegative(digits.drop_last());
    } else {
        assert(digits.subrange(0, at + 1) =~= digits);
    }
}

/// The length that a frame's four-byte big-endian prefix announces.
pub open spec fn announced_length(prefix: [u8; 4]) -> int {
    prefix[0] as int * 16777216 + prefix[1] as int * 65536 + prefix[2] as int * 256 + prefix[3] as int
}

/// The default largest frame: one mebibyte.
pub const DEFAULT_MAXIMUM_FRAME_BYTES: usize = 1048576;

/// The framing of the socket: every frame is length-prefixed, and no frame is
/// larger than the maximum.
#[derive(Debug, Clone, Copy, PartialEq, Eq)]
pub struct MindFrameCodec {
    pub maximum_frame_bytes: usize,
}

impl MindFrameCodec {
    pub fn new(maximum_frame_bytes: usize) -> (codec: Self)
        ensures
            codec.maximum_frame_bytes == maximum_frame_bytes,
    {
        MindFrameCodec { maximum_frame_bytes }
    }

    /// The length that a frame's prefix announces (see `announced_length`).
    pub fn frame_length(&self, prefix: [u8; 4]) -> (length: u32)
        ensures
            length == announced_length(prefix),
    {
        (prefix[0] as u32) * 16777216 + (prefix[1] as u32) * 65536 + (prefix[2] as u32) * 256
            + (prefix[3] as u32)
    }

    /// The announced length when it is within the maximum, else `FrameTooLarge`.
    pub fn check_length(&self, length: u32) -> (checked: Result<usize, Error>)
        ensures
            length as int <= self.maximum_frame_bytes ==> checked == Ok::<usize, Error>(length as usize),
            length as int > self.maximum_frame_bytes ==> checked == Err::<usize, Error>(
                Error::FrameTooLarge { found: length as usize, limit: self.maximum_frame_bytes },
            ),
    {
        if length as u64 > self.maximum_frame_bytes as u64 {
            Err(Error::FrameTooLarge { found: length as usize, limit: self.maximum_frame_bytes })
        } else {
            Ok(length as usize)
        }
    }
}

impl Default for MindFrameCodec {
    fn default() -> (codec: Self)
        ensures
            codec.maximum_frame_bytes == DEFAULT_MAXIMUM_FRAME_BYTES,
    {
        MindFrameCodec::new(DEFAULT_MAXIMUM_FRAME_BYTES)
    }
}

/// The daemon, before it binds: its socket, its store, the mode to bind the socket
/// with, and its framing.
pub struct MindDaemon {
    endpoint: MindDaemonEndpoint,
    store: StoreLocation,
    socket_mode: Option<MindSocketMode>,
    codec: MindFrameCodec,
}

impl MindDaemon {
    pub closed spec fn socket(&self) -> Seq<char> {
        self.endpoint.path()
    }

    pub closed spec fn location(&self) -> Seq<char> {
        self.store.path()
    }

    pub closed spec fn mode(&self) -> Option<MindSocketMode> {
        self.socket_mode
    }

    pub closed spec fn framing(&self) -> MindFrameCodec {
        self.codec
    }

    /// A daemon on `endpoint` for `store`, bound with the mode that the environment
    /// gives, if any, and the default framing.
    pub fn new(endpoint: MindDaemonEndpoint, store: StoreLocation, environment_mode: Option<MindSocketMode>) -> (daemon: Self)
        ensures
            daemon.socket() == endpoint.path(),
            daemon.location() == store.path(),
            daemon.mode() == environment_mode,
            daemon.framing().maximum_frame_bytes == DEFAULT_MAXIMUM_FRAME_BYTES,
    {
        MindDaemon { endpoint, store, socket_mode: environment_mode, codec: MindFrameCodec::default() }
    }

    /// The same daemon, bound with `socket_mode`.
    pub fn with_socket_mode(self, socket_mode: MindSocketMode) -> (daemon: Self)
        ensures
            daemon.mode() == Some(socket_mode),
            daemon.socket() == self.socket(),
            daemon.location() == self.location(),
            daemon.framing() == self.framing(),
    {
        MindDaemon { socket_mode: Some(socket_mode), ..self }
    }

    pub fn endpoint(&self) -> (endpoint: &MindDaemonEndpoint)
        ensures
            endpoint.path() == self.socket(),
    {
        &self.endpoint
    }

    pub fn store(&self) -> (store: &StoreLocation)
        ensures
            store.path() == self.location(),
    {
        &self.store
    }

    pub fn socket_mode(&self) -> (mode: Option<MindSocketMode>)
        ensures
            mode == self.mode(),
    {
        self.socket_mode
    }

    pub fn codec(&self) -> (codec: MindFrameCodec)
        ensures
            codec == self.framing(),
    {
        self.codec
    }
}

} // verus!
