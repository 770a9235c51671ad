use vstd::prelude::*;

use crate::error::{FrameError, ProtoError};
use crate::util::{bool_byte, bool_parser, bool_writer};

verus! {

/// Report ID under which every Weisheng frame travels.
pub const WS_REPORT_ID: u8 = 4;

/// Command code in the weisheng protocol.
#[derive(Debug, PartialEq, Eq, Clone, Copy, Structural)]
pub enum WsCmd {
    StartQuickComm,
    EndQuickComm,
    GetVersion,
    GetFunctionInfo,
    SetFunctionInfo,
    GetKey,
    SetKey,
    GetCustomLight,
    SetCustomLight,
    ResetSettings,
    WriteMacro,
    GetBatteryLevel,
    GetLightEffectMat,
    GetFnKey,
    SetFnKey,
    /// Any command byte that names none of the commands above.
    Error,
}

/// The byte that encodes a command on the wire; `Error` has none.
pub open spec fn cmd_code(cmd: WsCmd) -> Option<u8> {
    match cmd {
        WsCmd::StartQuickComm => Some(1u8),
        WsCmd::EndQuickComm => Some(2u8),
        WsCmd::GetVersion => Some(3u8),
        WsCmd::GetFunctionInfo => Some(5u8),
        WsCmd::SetFunctionInfo => Some(6u8),
        WsCmd::GetKey => Some(8u8),
        WsCmd::SetKey => Some(9u8),
        WsCmd::GetCustomLight => Some(10u8),
        WsCmd::SetCustomLight => Some(11u8),
        WsCmd::ResetSettings => Some(13u8),
        WsCmd::WriteMacro => Some(21u8),
        WsCmd::GetBatteryLevel => Some(26u8),
        WsCmd::GetLightEffectMat => Some(27u8),
        WsCmd::GetFnKey => Some(38u8),
        WsCmd::SetFnKey => Some(39u8),
        WsCmd::Error => None,
    }
}

/// The command a wire byte names: the command whose code it is, else `Error`.
pub open spec fn cmd_of_code(b: u8) -> WsCmd {
    if b == 1 {
        WsCmd::StartQuickComm
    } else if b == 2 {
        WsCmd::EndQuickComm
    } else if b == 3 {
        WsCmd::GetVersion
    } else if b == 5 {
        WsCmd::GetFunctionInfo
    } else if b == 6 {
        WsCmd::SetFunctionInfo
    } else if b == 8 {
        WsCmd::GetKey
    } else if b == 9 {
        WsCmd::SetKey
    } else if b == 10 {
        WsCmd::GetCustomLight
    } else if b == 11 {
        WsCmd::SetCustomLight
    } else if b == 13 {
        WsCmd::ResetSettings
    } else if b == 21 {
        WsCmd::WriteMacro
    } else if b == 26 {
        WsCmd::GetBatteryLevel
    } else if b == 27 {
        WsCmd::GetLightEffectMat
    } else if b == 38 {
        WsCmd::GetFnKey
    } else if b == 39 {
        WsCmd::SetFnKey
    } else {
        WsCmd::Error
    }
}

/// The bytes a command occupies in a frame: its code, or nothing for `Error`.
pub open spec fn cmd_bytes(cmd: WsCmd) -> Seq<u8> {
    match cmd_code(cmd) {
        Some(b) => seq![b],
        None => Seq::empty(),
    }
}

impl WsCmd {
    /// Returns the expected length of the payload in frames for the command.
    #[verifier::allow_in_spec]
    pub fn payload_len(&self) -> usize
        returns
            (match *self {
                WsCmd::GetVersion | WsCmd::GetFunctionInfo | WsCmd::SetFunctionInfo => 24usize,
                WsCmd::GetBatteryLevel => 2usize,
                WsCmd::ResetSettings => 0usize,
                _ => 56usize,
            }),
    {
        match self {
            WsCmd::GetVersion | WsCmd::GetFunctionInfo | WsCmd::SetFunctionInfo => 24,
            WsCmd::GetBatteryLevel => 2,
            WsCmd::ResetSettings => 0,
            _ => 56,
        }
    }

    /// Returns the expected length of complete data for the command.
    #[verifier::allow_in_spec]
    pub fn data_len(&self) -> usize
        returns
            (match *self {
                WsCmd::GetVersion => 30usize,
                WsCmd::GetFunctionInfo | WsCmd::SetFunctionInfo => 35usize,
                WsCmd::GetBatteryLevel => 2usize,
                WsCmd::ResetSettings => 0usize,
                _ => 56usize,
            }),
    {
        match self {
            WsCmd::GetVersion => 30,
            WsCmd::GetFunctionInfo | WsCmd::SetFunctionInfo => 35,
            WsCmd::GetBatteryLevel => 2,
            WsCmd::ResetSettings => 0,
            _ => 56,
        }
    }

    /// The wire byte of the command, `None` for `Error`.
    pub fn code(&self) -> (c: Option<u8>)
        ensures
            c == cmd_code(*self),
    {
        match self {
            WsCmd::StartQuickComm => Some(1),
            WsCmd::EndQuickComm => Some(2),
            WsCmd::GetVersion => Some(3),
            WsCmd::GetFunctionInfo => Some(5),
            WsCmd::SetFunctionInfo => Some(6),
            WsCmd::GetKey => Some(8),
            WsCmd::SetKey => Some(9),
            WsCmd::GetCustomLight => Some(10),
            WsCmd::SetCustomLight => Some(11),
            WsCmd::ResetSettings => Some(13),
            WsCmd::WriteMacro => Some(21),
            WsCmd::GetBatteryLevel => Some(26),
            WsCmd::GetLightEffectMat => Some(27),
            WsCmd::GetFnKey => Some(38),
            WsCmd::SetFnKey => Some(39),
            WsCmd::Error => None,
        }
    }

    /// The command a wire byte names, `Error` for an unknown byte.
    pub fn from_code(b: u8) -> (cmd: WsCmd)
        ensures
            cmd == cmd_of_code(b),
    {
        match b {
            1 => WsCmd::StartQuickComm,
            2 => WsCmd::EndQuickComm,
            3 => WsCmd::GetVersion,
            5 => WsCmd::GetFunctionInfo,
            6 => WsCmd::SetFunctionInfo,
            8 => WsCmd::GetKey,
            9 => WsCmd::SetKey,
            10 => WsCmd::GetCustomLight,
            11 => WsCmd::SetCustomLight,
            13 => WsCmd::ResetSettings,
            21 => WsCmd::WriteMacro,
            26 => WsCmd::GetBatteryLevel,
            27 => WsCmd::GetLightEffectMat,
            38 => WsCmd::GetFnKey,
            39 => WsCmd::SetFnKey,
            _ => WsCmd::Error,
        }
    }
}

/// Every command with a code is named by its code again.
pub proof fn lemma_cmd_code_roundtrip(cmd: WsCmd)
    ensures
        cmd_code(cmd) matches Some(b) ==> cmd_of_code(b) == cmd,
        cmd_code(cmd) is None <==> cmd == WsCmd::Error,
{
}

/// The two bytes of a `u16` in little-endian order.
pub open spec fn u16_le(v: u16) -> Seq<u8> {
    seq![(v % 256) as u8, (v / 256) as u8]
}

/// The wire form of a frame: magic `00 00`, the command byte, the payload
/// length, the offset (little endian), one zero byte, then the payload.
pub open spec fn frame_bytes(cmd: WsCmd, offset: u16, data: Seq<u8>) -> Seq<u8> {
    seq![0u8, 0u8] + cmd_bytes(cmd) + seq![data.len() as u8] + u16_le(offset) + seq![0u8] + data
}

/// Decoding of a frame from the bytes after the report ID.
///
/// The length byte is skipped: the payload length is the command's
/// `payload_len`. Bytes after the payload are ignored.
pub open spec fn parse_frame(s: Seq<u8>) -> Result<(WsCmd, u16, Seq<u8>), FrameError> {
    if s.len() < 2 {
        Err(FrameError::UnexpectedEof)
    } else if s[0] != 0 || s[1] != 0 {
        Err(FrameError::BadMagic)
    } else if s.len() < 3 {
        Err(FrameError::UnexpectedEof)
    } else {
        let cmd = cmd_of_code(s[2]);
        let n = cmd.payload_len() as int;
        if s.len() < 6 {
            Err(FrameError::UnexpectedEof)
        } else if n > 0 && s.len() < 7 + n {
            Err(FrameError::UnexpectedEof)
        } else {
            let data = if n == 0 { Seq::empty() } else { s.subrange(7, 7 + n) };
            Ok((cmd, (s[4] + 256 * s[5]) as u16, data))
        }
    }
}

/// How many pieces of at most `size` bytes `len` bytes make: `len / size` rounded up.
pub open spec fn num_chunks(len: int, size: int) -> int {
    len / size + if len % size == 0 {
        0int
    } else {
        1int
    }
}

/// The `i`-th piece of `d` when cut into pieces of `size` bytes; the last may be shorter.
pub open spec fn chunk(d: Seq<u8>, size: int, i: int) -> Seq<u8> {
    let start = i * size;
    let end = if d.len() < start + size {
        d.len() as int
    } else {
        start + size
    };
    d.subrange(start, end)
}

/// `n` zero bytes.
pub open spec fn zero_bytes(n: int) -> Seq<u8> {
    Seq::new(n as nat, |_i: int| 0u8)
}

/// The payload handed to `WsFrame::new`, by its view.
pub open spec fn opt_bytes(data: Option<&[u8]>) -> Option<Seq<u8>> {
    match data {
        Some(d) => Some(d@),
        None => None,
    }
}

/// How many frames carry a request: one per piece of the payload, and for
/// a request without payload one per piece of the command's data length,
/// at least one.
pub open spec fn frame_count(cmd: WsCmd, data: Option<Seq<u8>>) -> int {
    match data {
        Some(d) => num_chunks(d.len() as int, cmd.payload_len() as int),
        None => if cmd.data_len() == 0 {
            1int
        } else {
            num_chunks(cmd.data_len() as int, cmd.payload_len() as int)
        },
    }
}

/// `frames` are the request frames of `cmd` with payload `data`: frame `i`
/// carries piece `i` of the payload at offset `i * payload_len`, cut to 16
/// bits. Without a payload the pieces are those of the command's data length
/// of zeros; a command without data sends one empty frame.
pub open spec fn fragments_of(cmd: WsCmd, data: Option<Seq<u8>>, frames: Seq<WsFrame>) -> bool {
    let size = cmd.payload_len() as int;
    &&& frames.len() == frame_count(cmd, data)
    &&& forall|i: int|
        0 <= i < frames.len() ==> {
            &&& (#[trigger] frames[i]).cmd == cmd
            &&& frames[i].offset == (i * size) as u16
            &&& frames[i].data@ == match data {
                Some(d) => chunk(d, size, i),
                None => chunk(zero_bytes(cmd.data_len() as int), size, i),
            }
        }
}

/// Copies `data[start..end]` into a new vector.
fn copy_range(data: &[u8], start: usize, end: usize) -> (v: Vec<u8>)
    requires
        start <= end <= data@.len(),
    ensures
        v@ == data@.subrange(start as int, end as int),
{
    let mut v: Vec<u8> = Vec::with_capacity(end - start);
    let mut k: usize = start;
    while k < end
        invariant
            start <= k <= end <= data@.len(),
            v@ == data@.subrange(start as int, k as int),
        decreases end - k,
    {
        v.push(data[k]);
        k = k + 1;
    }
    v
}

/// A vector of `n` zero bytes.
fn zeros(n: usize) -> (v: Vec<u8>)
    ensures
        v@ == Seq::new(n as nat, |_i: int| 0u8),
{
    let mut v: Vec<u8> = Vec::with_capacity(n);
    let mut k: usize = 0;
    while k < n
        invariant
            k <= n,
            v@ == Seq::new(k as nat, |_i: int| 0u8),
        decreases n - k,
    {
        v.push(0);
        k = k + 1;
    }
    v
}

/// Data frame in the weisheng protocol.
///
/// The length of the frame is 63 bytes at most. If the data to be
/// transmitted is too long, it will be fragmented into multiple frames.
#[derive(Debug)]
pub struct WsFrame {
    /// Command code
    pub cmd: WsCmd,
    /// Offset of the payload if fragmented
    pub offset: u16,
    /// Payload data
    pub data: Vec<u8>,
}

impl WsFrame {
    /// Creates a new frame with the given command and data. If the data is too
    /// long, it will be fragmented into multiple frames.
    ///
    /// Passing `None` as data will create frames with zeroed payloads, as if
    /// a slice of the expected data length for the command was given.
    pub fn new(cmd: WsCmd, data: Option<&[u8]>) -> (frames: Vec<WsFrame>)
        requires
            data is Some ==> cmd.payload_len() > 0,
        ensures
            fragments_of(cmd, opt_bytes(data), frames@),
            forall|i: int|
                0 <= i < frames@.len() ==> (#[trigger] frames@[i]).data@.len() <= cmd.payload_len(),
    {
        let frame_len = cmd.payload_len();
        let mut frames: Vec<WsFrame> = Vec::new();
        match data {
            Some(data) => {
                let len = data.len();
                let num_frames = len / frame_len + if len % frame_len == 0 {
                    0
                } else {
                    1
                };
                let mut i: usize = 0;
                while i < num_frames
                    invariant
                        frame_len == cmd.payload_len(),
                        frame_len > 0,
                        len == data@.len(),
                        num_frames == num_chunks(len as int, frame_len as int),
                        i <= num_frames,
                        frames@.len() == i,
                        forall|j: int|
                            0 <= j < i ==> {
                                &&& (#[trigger] frames@[j]).cmd == cmd
                                &&& frames@[j].offset == (j * frame_len) as u16
                                &&& frames@[j].data@ == chunk(data@, frame_len as int, j)
                                &&& frames@[j].data@.len() <= frame_len
                            },
                    decreases num_frames - i,
                {
                    proof {
                        lemma_chunk_start(len as int, frame_len as int, i as int);
                    }
                    let start = i * frame_len;
                    let end = if len - start < frame_len {
                        len
                    } else {
                        start + frame_len
                    };
                    let piece = copy_range(data, start, end);
                    frames.push(WsFrame { cmd: cmd, offset: #[verifier::truncate] (start as u16), data: piece });
                    i = i + 1;
                }
            },
            None => {
                let data_len = cmd.data_len();
                let num_frames = if data_len == 0 {
                    1
                } else {
                    data_len / frame_len + if data_len % frame_len == 0 {
                        0
                    } else {
                        1
                    }
                };
                let mut i: usize = 0;
                while i < num_frames
                    invariant
                        frame_len == cmd.payload_len(),
                        data_len == cmd.data_len(),
                        data_len > 0 ==> frame_len > 0,
                        num_frames == frame_count(cmd, None),
                        i <= num_frames,
                        frames@.len() == i,
                        forall|j: int|
                            0 <= j < i ==> {
                                &&& (#[trigger] frames@[j]).cmd == cmd
                                &&& frames@[j].offset == (j * frame_len) as u16
                                &&& frames@[j].data@ == chunk(
                                    zero_bytes(data_len as int),
                                    frame_len as int,
                                    j,
                                )
                                &&& frames@[j].data@.len() <= frame_len
                            },
                    decreases num_frames - i,
                {
                    proof {
                        if data_len > 0 {
                            lemma_chunk_start(data_len as int, frame_len as int, i as int);
                        } else {
                            assert(i == 0);
                            assert(i * frame_len == 0) by (nonlinear_arith)
                                requires
                                    i == 0,
                            ;
                        }
                    }
                    let start = i * frame_len;
                    let n = if data_len - start < frame_len {
                        data_len - start
                    } else {
                        frame_len
                    };
                    let piece = zeros(n);
                    proof {
                        assert(piece@ =~= chunk(
                            zero_bytes(data_len as int),
                            frame_len as int,
                            i as int,
                        ));
                    }
                    frames.push(WsFrame { cmd: cmd, offset: #[verifier::truncate] (start as u16), data: piece });
                    i = i + 1;
                }
            },
        }
        frames
    }

    /// Decodes a frame from the bytes of a report, without its report ID.
    pub fn from_bytes(bytes: &[u8]) -> (res: Result<WsFrame, FrameError>)
        ensures
            match parse_frame(bytes@) {
                Ok((cmd, offset, data)) => (res matches Ok(f) && f.cmd == cmd && f.offset == offset
                    && f.data@ == data),
                Err(e) => res == Err::<WsFrame, FrameError>(e),
            },
    {
        let len = bytes.len();
        if len < 2 {
            return Err(FrameError::UnexpectedEof);
        }
        if bytes[0] != 0 || bytes[1] != 0 {
            return Err(FrameError::BadMagic);
        }
        if len < 3 {
            return Err(FrameError::UnexpectedEof);
        }
        let cmd = WsCmd::from_code(bytes[2]);
        let n = cmd.payload_len();
        if len < 6 {
            return Err(FrameError::UnexpectedEof);
        }
        if n > 0 && len < 7 + n {
            return Err(FrameError::UnexpectedEof);
        }
        let offset: u16 = bytes[4] as u16 + 256 * (bytes[5] as u16);
        let data = if n == 0 { Vec::new() } else { copy_range(bytes, 7, 7 + n) };
        proof {
            if n == 0 {
                assert(data@ =~= Seq::<u8>::empty());
            }
        }
        Ok(WsFrame { cmd, offset, data })
    }

    /// Encodes the frame; fails when the payload is longer than one byte can count.
    pub fn to_bytes(&self) -> (res: Result<Vec<u8>, FrameError>)
        ensures
            self.data@.len() > 255 ==> res == Err::<Vec<u8>, FrameError>(FrameError::LengthOverflow),
            self.data@.len() <= 255 ==> (res matches Ok(b) && b@ == frame_bytes(
                self.cmd,
                self.offset,
                self.data@,
            )),
    {
        if self.data.len() > 255 {
            return Err(FrameError::LengthOverflow);
        }
        let mut buf: Vec<u8> = Vec::with_capacity(64);
        buf.push(0);
        buf.push(0);
        match self.cmd.code() {
            Some(c) => buf.push(c),
            None => {},
        }
        buf.push(self.data.len() as u8);
        buf.push((self.offset % 256) as u8);
        buf.push((self.offset / 256) as u8);
        buf.push(0);
        let ghost head = buf@;
        let mut k: usize = 0;
        while k < self.data.len()
            invariant
                k <= self.data@.len(),
                buf@ == head + self.data@.subrange(0, k as int),
            decreases self.data@.len() - k,
        {
            buf.push(self.data[k]);
            k = k + 1;
        }
        assert(self.data@.subrange(0, self.data@.len() as int) =~= self.data@);
        assert(buf@ =~= frame_bytes(self.cmd, self.offset, self.data@));
        Ok(buf)
    }
}

/// Every piece index below the piece count starts inside the buffer.
proof fn lemma_chunk_start(len: int, size: int, i: int)
    requires
        size > 0,
        len >= 0,
        0 <= i < num_chunks(len, size),
    ensures
        0 <= i * size < len,
{
    vstd::arithmetic::div_mod::lemma_fundamental_div_mod(len, size);
    let q = len / size;
    let r = len % size;
    assert(0 <= r < size) by {
        vstd::arithmetic::div_mod::lemma_mod_bound(len, size);
    }
    assert(q >= 0) by {
        vstd::arithmetic::div_mod::lemma_div_pos_is_pos(len, size);
    }
    if i < q {
        assert(i * size <= (q - 1) * size) by (nonlinear_arith)
            requires
                i <= q - 1,
                size > 0,
        ;
        assert((q - 1) * size == q * size - size) by (nonlinear_arith);
        assert(size * q == q * size) by (nonlinear_arith);
    } else {
        assert(i == q && r > 0);
        assert(size * q == q * size) by (nonlinear_arith);
    }
    assert(0 <= i * size) by (nonlinear_arith)
        requires
            i >= 0,
            size > 0,
    ;
}

/// The pieces reach the end of the buffer: `num_chunks` pieces of `size` bytes cover `len` bytes.
proof fn lemma_chunks_cover(len: int, size: int)
    requires
        size > 0,
        len >= 0,
    ensures
        num_chunks(len, size) * size >= len,
        num_chunks(len, size) >= 0,
{
    vstd::arithmetic::div_mod::lemma_fundamental_div_mod(len, size);
    vstd::arithmetic::div_mod::lemma_mod_bound(len, size);
    vstd::arithmetic::div_mod::lemma_div_pos_is_pos(len, size);
    let q = len / size;
    let r = len % size;
    assert(size * q == q * size) by (nonlinear_arith);
    assert((q + 1) * size == q * size + size) by (nonlinear_arith);
}

/// The payloads of `frames`, one after the other.
pub open spec fn concat_data(frames: Seq<WsFrame>) -> Seq<u8>
    decreases frames.len(),
{
    if frames.len() == 0 {
        Seq::empty()
    } else {
        concat_data(frames.drop_last()) + frames.last().data@
    }
}

/// The response data that answers `frames` in order give, each written into
/// `resp` at its offset as `merge` says.
pub open spec fn reassemble(resp: Seq<u8>, frames: Seq<WsFrame>) -> Seq<u8>
    decreases frames.len(),
{
    if frames.len() == 0 {
        resp
    } else {
        merge(reassemble(resp, frames.drop_last()), frames.last().offset as int, frames.last().data@)
    }
}

proof fn lemma_concat_prefix(d: Seq<u8>, size: int, frames: Seq<WsFrame>, k: int)
    requires
        size > 0,
        frames.len() == num_chunks(d.len() as int, size),
        forall|i: int| 0 <= i < frames.len() ==> (#[trigger] frames[i]).data@ == chunk(d, size, i),
        0 <= k <= frames.len(),
    ensures
        concat_data(frames.take(k)) == d.take(if k * size < d.len() { k * size } else { d.len() as int }),
    decreases k,
{
    if k == 0 {
        assert(k * size == 0) by (nonlinear_arith)
            requires
                k == 0,
        ;
        assert(frames.take(0) =~= Seq::<WsFrame>::empty());
        assert(d.take(0) =~= Seq::<u8>::empty());
    } else {
        lemma_concat_prefix(d, size, frames, k - 1);
        lemma_chunk_start(d.len() as int, size, k - 1);
        assert(frames.take(k).drop_last() =~= frames.take(k - 1));
        assert(frames.take(k).last() == frames[k - 1]);
        assert((k - 1) * size + size == k * size) by (nonlinear_arith);
        let e = if k * size < d.len() { k * size } else { d.len() as int };
        assert(d.take((k - 1) * size) + d.subrange((k - 1) * size, e) =~= d.take(e));
    }
}

/// Cutting a payload into request frames loses and adds nothing: the frames'
/// payloads, one after the other, are the payload.
pub proof fn lemma_fragments_concat(cmd: WsCmd, d: Seq<u8>, frames: Seq<WsFrame>)
    requires
        cmd.payload_len() > 0,
        fragments_of(cmd, Some(d), frames),
    ensures
        concat_data(frames) == d,
{
    let size = cmd.payload_len() as int;
    lemma_concat_prefix(d, size, frames, frames.len() as int);
    lemma_chunks_cover(d.len() as int, size);
    assert(frames.take(frames.len() as int) =~= frames);
    assert(d.take(d.len() as int) =~= d);
}

proof fn lemma_reassemble_prefix(d: Seq<u8>, size: int, frames: Seq<WsFrame>, k: int)
    requires
        size > 0,
        d.len() <= 0x10000,
        frames.len() == num_chunks(d.len() as int, size),
        forall|i: int|
            0 <= i < frames.len() ==> {
                &&& (#[trigger] frames[i]).data@ == chunk(d, size, i)
                &&& frames[i].offset == (i * size) as u16
            },
        0 <= k <= frames.len(),
    ensures
        reassemble(zero_bytes(d.len() as int), frames.take(k)) == Seq::new(
            d.len(),
            |x: int| if x < k * size { d[x] } else { 0u8 },
        ),
    decreases k,
{
    if k == 0 {
        assert(k * size == 0) by (nonlinear_arith)
            requires
                k == 0,
        ;
        assert(frames.take(0) =~= Seq::<WsFrame>::empty());
        assert(zero_bytes(d.len() as int) =~= Seq::new(
            d.len(),
            |x: int| if x < k * size { d[x] } else { 0u8 },
        ));
    } else {
        lemma_reassemble_prefix(d, size, frames, k - 1);
        lemma_chunk_start(d.len() as int, size, k - 1);
        assert(frames.take(k).drop_last() =~= frames.take(k - 1));
        assert(frames.take(k).last() == frames[k - 1]);
        assert((k - 1) * size + size == k * size) by (nonlinear_arith);
        let off = (k - 1) * size;
        assert(frames[k - 1].offset == off);
        let prev = reassemble(zero_bytes(d.len() as int), frames.take(k - 1));
        let piece = frames[k - 1].data@;
        assert(merge(prev, off, piece) =~= Seq::new(
            d.len(),
            |x: int| if x < k * size { d[x] } else { 0u8 },
        ));
    }
}

/// Writing the frames of a payload into a buffer of zeros of the payload's
/// length, each at its offset, gives the payload back: reassembly undoes
/// fragmentation. (Offsets are 16 bits wide, hence the length bound.)
pub proof fn lemma_reassembly_inverts_fragmentation(cmd: WsCmd, d: Seq<u8>, frames: Seq<WsFrame>)
    requires
        cmd.payload_len() > 0,
        d.len() <= 0x10000,
        fragments_of(cmd, Some(d), frames),
    ensures
        reassemble(zero_bytes(d.len() as int), frames) == d,
{
    let size = cmd.payload_len() as int;
    lemma_reassemble_prefix(d, size, frames, frames.len() as int);
    lemma_chunks_cover(d.len() as int, size);
    assert(frames.take(frames.len() as int) =~= frames);
    assert(Seq::new(d.len(), |x: int| if x < frames.len() * size { d[x] } else { 0u8 }) =~= d);
}

/// A request frame carries at most its command's payload length.
proof fn lemma_fragment_len(cmd: WsCmd, data: Option<Seq<u8>>, frames: Seq<WsFrame>, i: int)
    requires
        data is Some ==> cmd.payload_len() > 0,
        fragments_of(cmd, data, frames),
        0 <= i < frames.len(),
    ensures
        frames[i].data@.len() <= cmd.payload_len(),
{
    let size = cmd.payload_len() as int;
    match data {
        Some(d) => {
            lemma_chunk_start(d.len() as int, size, i);
        },
        None => {
            if cmd.data_len() > 0 {
                lemma_chunk_start(cmd.data_len() as int, size, i);
            }
        },
    }
}

/// Every request frame fits the 63 bytes a report leaves after its report ID:
/// a 7-byte header and at most 56 bytes of payload.
pub proof fn lemma_request_frames_fit(cmd: WsCmd, data: Option<Seq<u8>>, frames: Seq<WsFrame>)
    requires
        data is Some ==> cmd.payload_len() > 0,
        fragments_of(cmd, data, frames),
    ensures
        forall|i: int|
            0 <= i < frames.len() ==> frame_bytes(
                (#[trigger] frames[i]).cmd,
                frames[i].offset,
                frames[i].data@,
            ).len() <= 63,
{
    assert forall|i: int| 0 <= i < frames.len() implies frame_bytes(
        (#[trigger] frames[i]).cmd,
        frames[i].offset,
        frames[i].data@,
    ).len() <= 63 by {
        lemma_fragment_len(cmd, data, frames, i);
    }
}

/// A request without payload is the request for a zero payload of the
/// command's data length: the same frames with the same offsets and the same
/// zero pieces. (Commands with no data are left out: without payload they
/// send one empty frame, with an empty payload none.)
pub proof fn lemma_no_payload_is_zero_payload(cmd: WsCmd, a: Seq<WsFrame>, b: Seq<WsFrame>)
    requires
        cmd.data_len() > 0,
        fragments_of(cmd, None, a),
        fragments_of(cmd, Some(zero_bytes(cmd.data_len() as int)), b),
    ensures
        a.len() == b.len(),
        forall|i: int|
            0 <= i < a.len() ==> {
                &&& (#[trigger] a[i]).cmd == b[i].cmd
                &&& a[i].offset == b[i].offset
                &&& a[i].data@ == b[i].data@
            },
{
}

/// A frame whose payload has its command's length decodes from its own encoding.
pub proof fn lemma_frame_roundtrip(cmd: WsCmd, offset: u16, data: Seq<u8>)
    requires
        cmd != WsCmd::Error,
        data.len() == cmd.payload_len(),
    ensures
        parse_frame(frame_bytes(cmd, offset, data)) == Ok::<(WsCmd, u16, Seq<u8>), FrameError>(
            (cmd, offset, data),
        ),
{
    let s = frame_bytes(cmd, offset, data);
    lemma_cmd_code_roundtrip(cmd);
    assert(s[2] == cmd_code(cmd).unwrap());
    assert(s[4] == (offset % 256) as u8);
    assert(s[5] == (offset / 256) as u8);
    assert(s[4] + 256 * s[5] == offset);
    if data.len() == 0 {
        assert(data =~= Seq::<u8>::empty());
    } else {
        assert(s.subrange(7, 7 + data.len() as int) =~= data);
    }
}

/// `resp` with the bytes from `offset` on replaced by `data`, as far as
/// `resp` reaches; bytes of `data` past the end of `resp` are dropped.
pub open spec fn merge(resp: Seq<u8>, offset: int, data: Seq<u8>) -> Seq<u8> {
    let end = if resp.len() < offset + data.len() {
        resp.len() as int
    } else {
        offset + data.len()
    };
    Seq::new(resp.len(), |k: int| if offset <= k < end { data[k - offset] } else { resp[k] })
}

/// Checks the report ID of a received report and decodes its frame.
pub fn decode_response(report_id: u8, bytes: &[u8]) -> (res: Result<WsFrame, ProtoError>)
    ensures
        report_id != WS_REPORT_ID ==> res == Err::<WsFrame, ProtoError>(
            ProtoError::InvalidReportId(report_id),
        ),
        report_id == WS_REPORT_ID ==> match parse_frame(bytes@) {
            Ok((cmd, offset, data)) => (res matches Ok(f) && f.cmd == cmd && f.offset == offset
                && f.data@ == data),
            Err(e) => res == Err::<WsFrame, ProtoError>(ProtoError::BadFrame(e)),
        },
{
    if report_id != WS_REPORT_ID {
        return Err(ProtoError::InvalidReportId(report_id));
    }
    match WsFrame::from_bytes(bytes) {
        Ok(f) => Ok(f),
        Err(e) => Err(ProtoError::BadFrame(e)),
    }
}

/// `resp` with `data` written over it from `offset` on, as `merge` says.
fn merge_bytes(resp: &Vec<u8>, offset: usize, data: &Vec<u8>) -> (out: Vec<u8>)
    requires
        offset <= resp@.len(),
    ensures
        out@ == merge(resp@, offset as int, data@),
{
    let len = resp.len();
    let n = data.len();
    let end = if n > len - offset {
        len
    } else {
        offset + n
    };
    let mut out: Vec<u8> = Vec::with_capacity(len);
    let mut k: usize = 0;
    while k < len
        invariant
            offset <= end <= len,
            len == resp@.len(),
            n == data@.len(),
            end <= offset + n,
            end == (if len < offset + n { len as int } else { offset + n }),
            k <= len,
            out@.len() == k,
            forall|j: int|
                0 <= j < k ==> #[trigger] out@[j] == if offset <= j < end {
                    data@[j - offset]
                } else {
                    resp@[j]
                },
        decreases len - k,
    {
        if offset <= k && k < end {
            out.push(data[k - offset]);
        } else {
            out.push(resp[k]);
        }
        k = k + 1;
    }
    assert(out@ =~= merge(resp@, offset as int, data@));
    out
}

/// How far an exchange has come: the answers taken so far and the response
/// data they make.
struct Progress {
    sent: usize,
    resp: Vec<u8>,
    answers: Ghost<Seq<WsFrame>>,
}

/// One command exchange: the request frames of a command, the answers taken
/// so far, and the response data gathered from them.
///
/// The driver asks for the next request, sends it, hands the decoded answer
/// to `accept`, and repeats until no request is left.
pub struct Exchange {
    cmd: WsCmd,
    requests: Vec<WsFrame>,
    progress: Progress,
}

impl Exchange {
    #[verifier::type_invariant]
    spec fn inv(&self) -> bool {
        &&& self.progress.sent <= self.requests@.len()
        &&& self.progress.answers@.len() == self.progress.sent
        &&& self.progress.resp@ == reassemble(
            zero_bytes(self.cmd.data_len() as int),
            self.progress.answers@,
        )
        &&& self.progress.resp@.len() == self.cmd.data_len()
        &&& forall|i: int|
            0 <= i < self.requests@.len() ==> (#[trigger] self.requests@[i]).data@.len()
                <= self.cmd.payload_len()
    }

    /// The command being exchanged.
    pub closed spec fn command(&self) -> WsCmd {
        self.cmd
    }

    /// The request frames, in the order they are sent.
    pub closed spec fn requests(&self) -> Seq<WsFrame> {
        self.requests@
    }

    /// How many requests have been answered.
    pub closed spec fn answered(&self) -> nat {
        self.progress.sent as nat
    }

    /// The answers taken so far, in order.
    pub closed spec fn answers(&self) -> Seq<WsFrame> {
        self.progress.answers@
    }

    /// The response data gathered so far.
    pub closed spec fn response(&self) -> Seq<u8> {
        self.progress.resp@
    }

    /// Starts the exchange of `cmd` with payload `data`; the response buffer
    /// starts as the command's data length of zeros.
    pub fn new(cmd: WsCmd, data: Option<&[u8]>) -> (ex: Exchange)
        requires
            data is Some ==> cmd.payload_len() > 0,
        ensures
            ex.command() == cmd,
            fragments_of(cmd, opt_bytes(data), ex.requests()),
            ex.answered() == 0,
            ex.answers() == Seq::<WsFrame>::empty(),
            ex.response() == zero_bytes(cmd.data_len() as int),
    {
        let requests = WsFrame::new(cmd, data);
        let resp = zeros(cmd.data_len());
        Exchange {
            cmd,
            requests,
            progress: Progress { sent: 0, resp, answers: Ghost(Seq::empty()) },
        }
    }

    /// The encoding of the next request to send, `None` once all are answered.
    pub fn next_request(&self) -> (req: Option<Vec<u8>>)
        ensures
            self.answered() < self.requests().len() ==> (req matches Some(b) && b@ == frame_bytes(
                self.requests()[self.answered() as int].cmd,
                self.requests()[self.answered() as int].offset,
                self.requests()[self.answered() as int].data@,
            )),
            self.answered() >= self.requests().len() ==> req is None,
            req matches Some(b) ==> b@.len() <= 63,
    {
        proof {
            use_type_invariant(self);
        }
        if self.progress.sent < self.requests.len() {
            let frame = &self.requests[self.progress.sent];
            match frame.to_bytes() {
                Ok(b) => Some(b),
                Err(_) => {
                    assert(false);
                    None
                },
            }
        } else {
            None
        }
    }

    /// Whether every request has been answered.
    pub fn is_complete(&self) -> (done: bool)
        ensures
            done == (self.answered() >= self.requests().len()),
    {
        proof {
            use_type_invariant(self);
        }
        self.progress.sent >= self.requests.len()
    }

    /// Takes the answer to the current request. An answer to another command
    /// is refused and changes nothing; otherwise its payload is written into
    /// the response data at its offset, cut at the end of the data.
    pub fn accept(&mut self, response: &WsFrame) -> (res: Result<(), ProtoError>)
        requires
            old(self).answered() < old(self).requests().len(),
            response.cmd == old(self).command() ==> response.offset <= old(
                self,
            ).command().data_len(),
        ensures
            final(self).command() == old(self).command(),
            final(self).requests() == old(self).requests(),
            response.cmd != old(self).command() ==> {
                &&& res == Err::<(), ProtoError>(ProtoError::ResponseMismatch)
                &&& final(self).answered() == old(self).answered()
                &&& final(self).answers() == old(self).answers()
                &&& final(self).response() == old(self).response()
            },
            response.cmd == old(self).command() ==> {
                &&& res is Ok
                &&& final(self).answered() == old(self).answered() + 1
                &&& final(self).answers() == old(self).answers().push(*response)
                &&& final(self).response() == merge(
                    old(self).response(),
                    response.offset as int,
                    response.data@,
                )
            },
    {
        proof {
            use_type_invariant(&*self);
        }
        if response.cmd != self.cmd {
            return Err(ProtoError::ResponseMismatch);
        }
        let merged = merge_bytes(&self.progress.resp, response.offset as usize, &response.data);
        let total = self.requests.len();
        assert(self.progress.sent < total);
        let ghost answers = self.progress.answers@.push(*response);
        proof {
            assert(answers.drop_last() =~= self.progress.answers@);
            assert(answers.last() == *response);
        }
        self.progress = Progress { sent: self.progress.sent + 1, resp: merged, answers: Ghost(answers) };
        Ok(())
    }

    /// The response data, once the exchange is over.
    pub fn into_response(self) -> (data: Vec<u8>)
        ensures
            data@ == self.response(),
            data@ == reassemble(zero_bytes(self.command().data_len() as int), self.answers()),
    {
        proof {
            use_type_invariant(&self);
        }
        self.progress.resp
    }
}

/// Lighting effect of the keyboard.
#[derive(Debug, Clone, Copy, PartialEq, Eq, Structural)]
pub enum LightMode {
    Flow,
    Cloud,
    Circuit,
    Judgement,
    Breath,
    Steady,
    Step,
    Ripple,
    Dash,
    Surging,
    Blossom,
    Stripes,
    Soaring,
    Swirl,
    Rain,
    Tide,
    Unity,
    Passion,
    Custom,
    Off,
}

/// The byte that stores a LightMode value.
pub open spec fn light_mode_code(v: LightMode) -> u8 {
    match v {
        LightMode::Flow => 1u8,
        LightMode::Cloud => 2u8,
        LightMode::Circuit => 3u8,
        LightMode::Judgement => 4u8,
        LightMode::Breath => 5u8,
        LightMode::Steady => 6u8,
        LightMode::Step => 7u8,
        LightMode::Ripple => 8u8,
        LightMode::Dash => 9u8,
        LightMode::Surging => 10u8,
        LightMode::Blossom => 11u8,
        LightMode::Stripes => 12u8,
        LightMode::Soaring => 13u8,
        LightMode::Swirl => 14u8,
        LightMode::Rain => 15u8,
        LightMode::Tide => 16u8,
        LightMode::Unity => 17u8,
        LightMode::Passion => 18u8,
        LightMode::Custom => 19u8,
        LightMode::Off => 20u8,
    }
}

/// The LightMode value a byte stores, if any.
pub open spec fn light_mode_of(b: u8) -> Option<LightMode> {
    if b == 1 {
        Some(LightMode::Flow)
    } else if b == 2 {
        Some(LightMode::Cloud)
    } else if b == 3 {
        Some(LightMode::Circuit)
    } else if b == 4 {
        Some(LightMode::Judgement)
    } else if b == 5 {
        Some(LightMode::Breath)
    } else if b == 6 {
        Some(LightMode::Steady)
    } else if b == 7 {
        Some(LightMode::Step)
    } else if b == 8 {
        Some(LightMode::Ripple)
    } else if b == 9 {
        Some(LightMode::Dash)
    } else if b == 10 {
        Some(LightMode::Surging)
    } else if b == 11 {
        Some(LightMode::Blossom)
    } else if b == 12 {
        Some(LightMode::Stripes)
    } else if b == 13 {
        Some(LightMode::Soaring)
    } else if b == 14 {
        Some(LightMode::Swirl)
    } else if b == 15 {
        Some(LightMode::Rain)
    } else if b == 16 {
        Some(LightMode::Tide)
    } else if b == 17 {
        Some(LightMode::Unity)
    } else if b == 18 {
        Some(LightMode::Passion)
    } else if b == 19 {
        Some(LightMode::Custom)
    } else if b == 20 {
        Some(LightMode::Off)
    } else {
        None
    }
}

impl LightMode {
    /// The byte that stores the value.
    pub fn code(&self) -> (b: u8)
        ensures
            b == light_mode_code(*self),
    {
        match self {
            LightMode::Flow => 1,
            LightMode::Cloud => 2,
            LightMode::Circuit => 3,
            LightMode::Judgement => 4,
            LightMode::Breath => 5,
            LightMode::Steady => 6,
            LightMode::Step => 7,
            LightMode::Ripple => 8,
            LightMode::Dash => 9,
            LightMode::Surging => 10,
            LightMode::Blossom => 11,
            LightMode::Stripes => 12,
            LightMode::Soaring => 13,
            LightMode::Swirl => 14,
            LightMode::Rain => 15,
            LightMode::Tide => 16,
            LightMode::Unity => 17,
            LightMode::Passion => 18,
            LightMode::Custom => 19,
            LightMode::Off => 20,
        }
    }

    /// The value a byte stores; `None` when it names no variant.
    pub fn from_code(b: u8) -> (v: Option<LightMode>)
        ensures
            v == light_mode_of(b),
    {
        match b {
            1 => Some(LightMode::Flow),
            2 => Some(LightMode::Cloud),
            3 => Some(LightMode::Circuit),
            4 => Some(LightMode::Judgement),
            5 => Some(LightMode::Breath),
            6 => Some(LightMode::Steady),
            7 => Some(LightMode::Step),
            8 => Some(LightMode::Ripple),
            9 => Some(LightMode::Dash),
            10 => Some(LightMode::Surging),
            11 => Some(LightMode::Blossom),
            12 => Some(LightMode::Stripes),
            13 => Some(LightMode::Soaring),
            14 => Some(LightMode::Swirl),
            15 => Some(LightMode::Rain),
            16 => Some(LightMode::Tide),
            17 => Some(LightMode::Unity),
            18 => Some(LightMode::Passion),
            19 => Some(LightMode::Custom),
            20 => Some(LightMode::Off),
            _ => None,
        }
    }
}

/// Every LightMode value is read back from its byte.
pub proof fn lemma_light_mode_code_roundtrip(v: LightMode)
    ensures
        light_mode_of(light_mode_code(v)) == Some(v),
{
}

/// USB polling rate of the keyboard.
#[derive(Debug, Clone, Copy, PartialEq, Eq, Structural)]
pub enum PollingRate {
    Hz1000,
    Hz500,
    Hz250,
    Hz125,
}

/// The byte that stores a PollingRate value.
pub open spec fn polling_rate_code(v: PollingRate) -> u8 {
    match v {
        PollingRate::Hz1000 => 0u8,
        PollingRate::Hz500 => 1u8,
        PollingRate::Hz250 => 2u8,
        PollingRate::Hz125 => 3u8,
    }
}

/// The PollingRate value a byte stores, if any.
pub open spec fn polling_rate_of(b: u8) -> Option<PollingRate> {
    if b == 0 {
        Some(PollingRate::Hz1000)
    } else if b == 1 {
        Some(PollingRate::Hz500)
    } else if b == 2 {
        Some(PollingRate::Hz250)
    } else if b == 3 {
        Some(PollingRate::Hz125)
    } else {
        None
    }
}

impl PollingRate {
    /// The byte that stores the value.
    pub fn code(&self) -> (b: u8)
        ensures
            b == polling_rate_code(*self),
    {
        match self {
            PollingRate::Hz1000 => 0,
            PollingRate::Hz500 => 1,
            PollingRate::Hz250 => 2,
            PollingRate::Hz125 => 3,
        }
    }

    /// The value a byte stores; `None` when it names no variant.
    pub fn from_code(b: u8) -> (v: Option<PollingRate>)
        ensures
            v == polling_rate_of(b),
    {
        match b {
            0 => Some(PollingRate::Hz1000),
            1 => Some(PollingRate::Hz500),
            2 => Some(PollingRate::Hz250),
            3 => Some(PollingRate::Hz125),
            _ => None,
        }
    }
}

/// Every PollingRate value is read back from its byte.
pub proof fn lemma_polling_rate_code_roundtrip(v: PollingRate)
    ensures
        polling_rate_of(polling_rate_code(v)) == Some(v),
{
}

/// The keyboard's function settings, as stored in 35 bytes: one unused
/// byte, then the fields in order; booleans take one byte, `sleep_time` two
/// (little endian).
#[derive(Debug, Clone, Copy, PartialEq, Eq)]
pub struct FunctionInfo {
    /// Lighting effect.
    pub light_mode: LightMode,
    /// Brightness of the lighting.
    pub light_brightness: u8,
    /// Speed of the lighting effect.
    pub light_speed: u8,
    /// Whether the effect runs in reverse.
    pub light_reverse: bool,
    /// Whether colours cycle through the rainbow.
    pub rainbow_mode: bool,
    /// Colour of single-colour effects.
    pub static_color: [u8; 3],
    /// Index of the selected colour.
    pub color_index: u8,
    /// User-defined colour.
    pub custom_color: [u8; 3],
    /// Idle time before the keyboard sleeps.
    pub sleep_time: u16,
    /// Reserved byte, kept as read.
    pub reserved15: u8,
    /// Reserved byte, kept as read.
    pub reserved16: u8,
    /// Reserved byte, kept as read.
    pub reserved17: u8,
    /// How colours are triggered.
    pub color_trigger_mode: u8,
    /// Whether WASD and the arrow keys are swapped.
    pub swap_wasd: bool,
    /// Whether every key is rollover-free.
    pub all_key_punchless: bool,
    /// Whether the Windows key is locked.
    pub lock_win: bool,
    /// USB polling rate.
    pub polling_rate: PollingRate,
    /// Reserved byte, kept as read.
    pub reserved23: u8,
    /// Reserved byte, kept as read.
    pub reserved24: u8,
    /// Reserved byte, kept as read.
    pub reserved25: u8,
    /// Reserved byte, kept as read.
    pub reserved26: u8,
    /// Whether the Mac layout is active.
    pub mac_mode: bool,
    /// Whether the lighting is on.
    pub enable_light: bool,
    /// Reserved byte, kept as read.
    pub reserved29: u8,
    /// Reserved byte, kept as read.
    pub reserved30: u8,
    /// Reserved byte, kept as read.
    pub reserved31: u8,
    /// Reserved byte, kept as read.
    pub reserved32: u8,
    /// Whether smart speed is on.
    pub enable_smart_speed: bool,
    /// Low-latency setting.
    pub enable_low_latency: u8,
}

/// The 35 bytes that store `info`; the unused first byte is zero.
pub open spec fn info_bytes(info: FunctionInfo) -> Seq<u8> {
    seq![
        0u8,
        light_mode_code(info.light_mode),
        info.light_brightness,
        info.light_speed,
        bool_byte(info.light_reverse),
        bool_byte(info.rainbow_mode),
        info.static_color[0],
        info.static_color[1],
        info.static_color[2],
        info.color_index,
        info.custom_color[0],
        info.custom_color[1],
        info.custom_color[2],
        (info.sleep_time % 256) as u8,
        (info.sleep_time / 256) as u8,
        info.reserved15,
        info.reserved16,
        info.reserved17,
        info.color_trigger_mode,
        bool_byte(info.swap_wasd),
        bool_byte(info.all_key_punchless),
        bool_byte(info.lock_win),
        polling_rate_code(info.polling_rate),
        info.reserved23,
        info.reserved24,
        info.reserved25,
        info.reserved26,
        bool_byte(info.mac_mode),
        bool_byte(info.enable_light),
        info.reserved29,
        info.reserved30,
        info.reserved31,
        info.reserved32,
        bool_byte(info.enable_smart_speed),
        info.enable_low_latency,
    ]
}

/// Decoding of a `FunctionInfo` from its bytes. The first byte is skipped,
/// any non-zero byte is a `true` boolean, and bytes after the 35th are ignored.
/// The fields are read in order, so a short buffer or an unknown enumeration
/// byte fails at the first field it reaches.
pub open spec fn parse_info(s: Seq<u8>) -> Result<FunctionInfo, FrameError> {
    if s.len() < 2 {
        Err(FrameError::UnexpectedEof)
    } else if light_mode_of(s[1]) is None {
        Err(FrameError::NoVariantMatch)
    } else if s.len() < 23 {
        Err(FrameError::UnexpectedEof)
    } else if polling_rate_of(s[22]) is None {
        Err(FrameError::NoVariantMatch)
    } else if s.len() < 35 {
        Err(FrameError::UnexpectedEof)
    } else {
        Ok(FunctionInfo {
            light_mode: light_mode_of(s[1]).unwrap(),
            light_brightness: s[2],
            light_speed: s[3],
            light_reverse: s[4] != 0,
            rainbow_mode: s[5] != 0,
            static_color: [s[6], s[7], s[8]],
            color_index: s[9],
            custom_color: [s[10], s[11], s[12]],
            sleep_time: (s[13] + 256 * s[14]) as u16,
            reserved15: s[15],
            reserved16: s[16],
            reserved17: s[17],
            color_trigger_mode: s[18],
            swap_wasd: s[19] != 0,
            all_key_punchless: s[20] != 0,
            lock_win: s[21] != 0,
            polling_rate: polling_rate_of(s[22]).unwrap(),
            reserved23: s[23],
            reserved24: s[24],
            reserved25: s[25],
            reserved26: s[26],
            mac_mode: s[27] != 0,
            enable_light: s[28] != 0,
            reserved29: s[29],
            reserved30: s[30],
            reserved31: s[31],
            reserved32: s[32],
            enable_smart_speed: s[33] != 0,
            enable_low_latency: s[34],
        })
    }
}

impl FunctionInfo {
    /// Decodes the settings from the response data of `GetFunctionInfo`.
    pub fn from_bytes(bytes: &[u8]) -> (res: Result<FunctionInfo, FrameError>)
        ensures
            res == parse_info(bytes@),
    {
        if bytes.len() < 2 {
            return Err(FrameError::UnexpectedEof);
        }
        let light_mode = match LightMode::from_code(bytes[1]) {
            Some(m) => m,
            None => return Err(FrameError::NoVariantMatch),
        };
        if bytes.len() < 23 {
            return Err(FrameError::UnexpectedEof);
        }
        let polling_rate = match PollingRate::from_code(bytes[22]) {
            Some(r) => r,
            None => return Err(FrameError::NoVariantMatch),
        };
        if bytes.len() < 35 {
            return Err(FrameError::UnexpectedEof);
        }
        Ok(FunctionInfo {
            light_mode: light_mode,
            light_brightness: bytes[2],
            light_speed: bytes[3],
            light_reverse: bool_parser(bytes[4]),
            rainbow_mode: bool_parser(bytes[5]),
            static_color: [bytes[6], bytes[7], bytes[8]],
            color_index: bytes[9],
            custom_color: [bytes[10], bytes[11], bytes[12]],
            sleep_time: bytes[13] as u16 + 256 * (bytes[14] as u16),
            reserved15: bytes[15],
            reserved16: bytes[16],
            reserved17: bytes[17],
            color_trigger_mode: bytes[18],
            swap_wasd: bool_parser(bytes[19]),
            all_key_punchless: bool_parser(bytes[20]),
            lock_win: bool_parser(bytes[21]),
            polling_rate: polling_rate,
            reserved23: bytes[23],
            reserved24: bytes[24],
            reserved25: bytes[25],
            reserved26: bytes[26],
            mac_mode: bool_parser(bytes[27]),
            enable_light: bool_parser(bytes[28]),
            reserved29: bytes[29],
            reserved30: bytes[30],
            reserved31: bytes[31],
            reserved32: bytes[32],
            enable_smart_speed: bool_parser(bytes[33]),
            enable_low_latency: bytes[34],
        })
    }

    /// Encodes the settings as the payload of `SetFunctionInfo`.
    pub fn to_bytes(&self) -> (bytes: Vec<u8>)
        ensures
            bytes@ == info_bytes(*self),
    {
        let buf: Vec<u8> = vec![
            0,
            self.light_mode.code(),
            self.light_brightness,
            self.light_speed,
            bool_writer(&self.light_reverse),
            bool_writer(&self.rainbow_mode),
            self.static_color[0],
            self.static_color[1],
            self.static_color[2],
            self.color_index,
            self.custom_color[0],
            self.custom_color[1],
            self.custom_color[2],
            (self.sleep_time % 256) as u8,
            (self.sleep_time / 256) as u8,
            self.reserved15,
            self.reserved16,
            self.reserved17,
            self.color_trigger_mode,
            bool_writer(&self.swap_wasd),
            bool_writer(&self.all_key_punchless),
            bool_writer(&self.lock_win),
            self.polling_rate.code(),
            self.reserved23,
            self.reserved24,
            self.reserved25,
            self.reserved26,
            bool_writer(&self.mac_mode),
            bool_writer(&self.enable_light),
            self.reserved29,
            self.reserved30,
            self.reserved31,
            self.reserved32,
            bool_writer(&self.enable_smart_speed),
            self.enable_low_latency,
        ];
        assert(buf@ =~= info_bytes(*self));
        buf
    }

    /// Sets the brightness, raised to at least 4.
    pub fn set_light_brightness(&mut self, brightness: u8)
        ensures
            *final(self) == (FunctionInfo { light_brightness: light_level(brightness), ..*old(self) }),
            final(self).light_brightness >= 4,
            final(self).light_brightness >= brightness,
            final(self).light_brightness == 4 || final(self).light_brightness == brightness,
    {
        self.light_brightness = if brightness < 4 { 4 } else { brightness };
    }

    /// Sets the effect speed, raised to at least 4.
    pub fn set_light_speed(&mut self, speed: u8)
        ensures
            *final(self) == (FunctionInfo { light_speed: light_level(speed), ..*old(self) }),
            final(self).light_speed >= 4,
            final(self).light_speed >= speed,
            final(self).light_speed == 4 || final(self).light_speed == speed,
    {
        self.light_speed = if speed < 4 { 4 } else { speed };
    }
}

/// The level stored for a requested brightness or speed: at least 4.
pub open spec fn light_level(v: u8) -> u8 {
    if v < 4 {
        4u8
    } else {
        v
    }
}

/// Every settings record is decoded from its own encoding.
pub proof fn lemma_info_roundtrip(info: FunctionInfo)
    ensures
        parse_info(info_bytes(info)) == Ok::<FunctionInfo, FrameError>(info),
{
    let s = info_bytes(info);
    lemma_light_mode_code_roundtrip(info.light_mode);
    lemma_polling_rate_code_roundtrip(info.polling_rate);
    assert(s[13] + 256 * s[14] == info.sleep_time);
    let p = parse_info(s).unwrap();
    assert(p.static_color =~= info.static_color);
    assert(p.custom_color =~= info.custom_color);
}

/// Battery level and charging state from the response data of `GetBatteryLevel`.
pub fn battery_status_from(data: &[u8]) -> (status: (u8, bool))
    requires
        data@.len() >= 2,
    ensures
        status == (data@[0], data@[1] != 0),
{
    (data[0], data[1] != 0)
}

/// Firmware version from the response data of `GetVersion`: bytes 28 and 29,
/// little endian.
pub fn firmware_version_from(data: &[u8]) -> (version: u16)
    requires
        data@.len() >= 30,
    ensures
        version == data@[28] + 256 * data@[29],
{
    let high = data[29] as u16;
    let low = data[28] as u16;
    let v = (high << 8u16) | low;
    assert(v == low + 256 * high) by (bit_vector)
        requires
            v == (high << 8u16) | low,
            high < 256,
            low < 256,
    ;
    v
}

/// Settings written with `SetFunctionInfo` and answered back frame by frame
/// decode to the same settings: encoding, fragmentation, reassembly and
/// decoding together lose nothing.
pub proof fn lemma_settings_echo(info: FunctionInfo, frames: Seq<WsFrame>)
    requires
        fragments_of(WsCmd::SetFunctionInfo, Some(info_bytes(info)), frames),
    ensures
        reassemble(zero_bytes(WsCmd::SetFunctionInfo.data_len() as int), frames) == info_bytes(info),
        parse_info(reassemble(zero_bytes(WsCmd::GetFunctionInfo.data_len() as int), frames))
            == Ok::<FunctionInfo, FrameError>(info),
{
    assert(info_bytes(info).len() == 35);
    lemma_reassembly_inverts_fragmentation(WsCmd::SetFunctionInfo, info_bytes(info), frames);
    lemma_info_roundtrip(info);
}

/// The protocol's command table: each command with the byte that names it
/// on the wire.
pub open spec fn ws_command_table() -> Seq<(WsCmd, u8)> {
    seq![
        (WsCmd::StartQuickComm, 1u8),
        (WsCmd::EndQuickComm, 2u8),
        (WsCmd::GetVersion, 3u8),
        (WsCmd::GetFunctionInfo, 5u8),
        (WsCmd::SetFunctionInfo, 6u8),
        (WsCmd::GetKey, 8u8),
        (WsCmd::SetKey, 9u8),
        (WsCmd::GetCustomLight, 10u8),
        (WsCmd::SetCustomLight, 11u8),
        (WsCmd::ResetSettings, 13u8),
        (WsCmd::WriteMacro, 21u8),
        (WsCmd::GetBatteryLevel, 26u8),
        (WsCmd::GetLightEffectMat, 27u8),
        (WsCmd::GetFnKey, 38u8),
        (WsCmd::SetFnKey, 39u8),
    ]
}

/// Every command is encoded by its byte in the protocol's command table and
/// decoded from it; `Error` alone has no byte; a byte decodes to a command
/// other than `Error` only if that command is encoded by it.
pub proof fn lemma_cmd_codes_follow_table()
    ensures
        forall|i: int|
            0 <= i < ws_command_table().len() ==> cmd_code((#[trigger] ws_command_table()[i]).0)
                == Some(ws_command_table()[i].1) && cmd_of_code(ws_command_table()[i].1)
                == ws_command_table()[i].0,
        forall|c: WsCmd| (#[trigger] cmd_code(c)) is None <==> c == WsCmd::Error,
        forall|b: u8|
            #[trigger] cmd_of_code(b) != WsCmd::Error ==> cmd_code(cmd_of_code(b)) == Some(b),
{
    assert forall|i: int| 0 <= i < ws_command_table().len() implies cmd_code(
        (#[trigger] ws_command_table()[i]).0,
    ) == Some(ws_command_table()[i].1) && cmd_of_code(ws_command_table()[i].1)
        == ws_command_table()[i].0 by {
        if i == 0 {
            assert(ws_command_table()[0] == (WsCmd::StartQuickComm, 1u8));
        }
        if i == 1 {
            assert(ws_command_table()[1] == (WsCmd::EndQuickComm, 2u8));
        }
        if i == 2 {
            assert(ws_command_table()[2] == (WsCmd::GetVersion, 3u8));
        }
        if i == 3 {
            assert(ws_command_table()[3] == (WsCmd::GetFunctionInfo, 5u8));
        }
        if i == 4 {
            assert(ws_command_table()[4] == (WsCmd::SetFunctionInfo, 6u8));
        }
        if i == 5 {
            assert(ws_command_table()[5] == (WsCmd::GetKey, 8u8));
        }
        if i == 6 {
            assert(ws_command_table()[6] == (WsCmd::SetKey, 9u8));
        }
        if i == 7 {
            assert(ws_command_table()[7] == (WsCmd::GetCustomLight, 10u8));
        }
        if i == 8 {
            assert(ws_command_table()[8] == (WsCmd::SetCustomLight, 11u8));
        }
        if i == 9 {
            assert(ws_command_table()[9] == (WsCmd::ResetSettings, 13u8));
        }
        if i == 10 {
            assert(ws_command_table()[10] == (WsCmd::WriteMacro, 21u8));
        }
        if i == 11 {
            assert(ws_command_table()[11] == (WsCmd::GetBatteryLevel, 26u8));
        }
        if i == 12 {
            assert(ws_command_table()[12] == (WsCmd::GetLightEffectMat, 27u8));
        }
        if i == 13 {
            assert(ws_command_table()[13] == (WsCmd::GetFnKey, 38u8));
        }
        if i == 14 {
            assert(ws_command_table()[14] == (WsCmd::SetFnKey, 39u8));
        }
    }
}

/// Each setting command's byte follows that of the command reading the same
/// thing, and the end of a quick exchange follows its start.
pub proof fn lemma_set_follows_get()
    ensures
        cmd_code(WsCmd::SetFunctionInfo).unwrap() == cmd_code(WsCmd::GetFunctionInfo).unwrap() + 1,
        cmd_code(WsCmd::SetKey).unwrap() == cmd_code(WsCmd::GetKey).unwrap() + 1,
        cmd_code(WsCmd::SetCustomLight).unwrap() == cmd_code(WsCmd::GetCustomLight).unwrap() + 1,
        cmd_code(WsCmd::SetFnKey).unwrap() == cmd_code(WsCmd::GetFnKey).unwrap() + 1,
        cmd_code(WsCmd::EndQuickComm).unwrap() == cmd_code(WsCmd::StartQuickComm).unwrap() + 1,
{
}

/// The lighting effects in the order they are declared.
pub open spec fn light_modes_in_order() -> Seq<LightMode> {
    seq![
        LightMode::Flow,
        LightMode::Cloud,
        LightMode::Circuit,
        LightMode::Judgement,
        LightMode::Breath,
        LightMode::Steady,
        LightMode::Step,
        LightMode::Ripple,
        LightMode::Dash,
        LightMode::Surging,
        LightMode::Blossom,
        LightMode::Stripes,
        LightMode::Soaring,
        LightMode::Swirl,
        LightMode::Rain,
        LightMode::Tide,
        LightMode::Unity,
        LightMode::Passion,
        LightMode::Custom,
        LightMode::Off,
    ]
}

/// Lighting effects are numbered from 1 in their declared order: the byte of
/// every effect is one more than its position, the byte of the effect at
/// position `i` is `i + 1`, and exactly the bytes 1 to 20 name an effect.
pub proof fn lemma_light_mode_codes_in_order()
    ensures
        light_modes_in_order().len() == 20,
        forall|v: LightMode|
            1 <= #[trigger] light_mode_code(v) <= 20 && light_modes_in_order()[light_mode_code(v) - 1]
                == v,
        forall|i: int|
            0 <= i < 20 ==> light_mode_of((i + 1) as u8) == Some(
                #[trigger] light_modes_in_order()[i],
            ),
        forall|b: u8| (#[trigger] light_mode_of(b)) is Some <==> 1 <= b <= 20,
{
    assert forall|i: int| 0 <= i < 20 implies light_mode_of((i + 1) as u8) == Some(
        #[trigger] light_modes_in_order()[i],
    ) by {
        if i == 0 {
            assert(light_modes_in_order()[0] == LightMode::Flow);
        }
        if i == 1 {
            assert(light_modes_in_order()[1] == LightMode::Cloud);
        }
        if i == 2 {
            assert(light_modes_in_order()[2] == LightMode::Circuit);
        }
        if i == 3 {
            assert(light_modes_in_order()[3] == LightMode::Judgement);
        }
        if i == 4 {
            assert(light_modes_in_order()[4] == LightMode::Breath);
        }
        if i == 5 {
            assert(light_modes_in_order()[5] == LightMode::Steady);
        }
        if i == 6 {
            assert(light_modes_in_order()[6] == LightMode::Step);
        }
        if i == 7 {
            assert(light_modes_in_order()[7] == LightMode::Ripple);
        }
        if i == 8 {
            assert(light_modes_in_order()[8] == LightMode::Dash);
        }
        if i == 9 {
            assert(light_modes_in_order()[9] == LightMode::Surging);
        }
        if i == 10 {
            assert(light_modes_in_order()[10] == LightMode::Blossom);
        }
        if i == 11 {
            assert(light_modes_in_order()[11] == LightMode::Stripes);
        }
        if i == 12 {
            assert(light_modes_in_order()[12] == LightMode::Soaring);
        }
        if i == 13 {
            assert(light_modes_in_order()[13] == LightMode::Swirl);
        }
        if i == 14 {
            assert(light_modes_in_order()[14] == LightMode::Rain);
        }
        if i == 15 {
            assert(light_modes_in_order()[15] == LightMode::Tide);
        }
        if i == 16 {
            assert(light_modes_in_order()[16] == LightMode::Unity);
        }
        if i == 17 {
            assert(light_modes_in_order()[17] == LightMode::Passion);
        }
        if i == 18 {
            assert(light_modes_in_order()[18] == LightMode::Custom);
        }
        if i == 19 {
            assert(light_modes_in_order()[19] == LightMode::Off);
        }
    }
}

/// The polling rate a setting names, in Hz.
pub open spec fn rate_hz(v: PollingRate) -> int {
    match v {
        PollingRate::Hz1000 => 1000,
        PollingRate::Hz500 => 500,
        PollingRate::Hz250 => 250,
        PollingRate::Hz125 => 125,
    }
}

/// A polling-rate byte counts how often 1000 Hz is halved: the rate times
/// two to the power of its byte is 1000; exactly the bytes 0 to 3 name a
/// rate, and a rate read from a byte is stored back as that byte.
pub proof fn lemma_polling_rate_codes_halve()
    ensures
        forall|v: PollingRate|
            #[trigger] polling_rate_code(v) <= 3 && rate_hz(v) * vstd::arithmetic::power2::pow2(
                polling_rate_code(v) as nat,
            ) == 1000,
        forall|b: u8| (#[trigger] polling_rate_of(b)) is Some <==> b <= 3,
        forall|b: u8| #[trigger] polling_rate_of(b) matches Some(v) ==> polling_rate_code(v) == b,
{
    vstd::arithmetic::power2::lemma2_to64();
}

/// Where each setting sits in its 35 bytes: a decoded record takes every
/// field from its fixed byte (any non-zero byte is `true`, the sleep time is
/// little endian), and the encoding puts every field at that same byte.
pub proof fn lemma_info_field_positions(s: Seq<u8>, info: FunctionInfo)
    ensures
        parse_info(s) matches Ok(i) ==> {
            &&& light_mode_of(s[1]) == Some(i.light_mode)
            &&& i.light_brightness == s[2]
            &&& i.light_speed == s[3]
            &&& i.light_reverse == (s[4] != 0)
            &&& i.rainbow_mode == (s[5] != 0)
            &&& i.static_color[0] == s[6]
            &&& i.static_color[1] == s[7]
            &&& i.static_color[2] == s[8]
            &&& i.color_index == s[9]
            &&& i.custom_color[0] == s[10]
            &&& i.custom_color[1] == s[11]
            &&& i.custom_color[2] == s[12]
            &&& i.sleep_time == s[13] + 256 * s[14]
            &&& i.reserved15 == s[15]
            &&& i.reserved16 == s[16]
            &&& i.reserved17 == s[17]
            &&& i.color_trigger_mode == s[18]
            &&& i.swap_wasd == (s[19] != 0)
            &&& i.all_key_punchless == (s[20] != 0)
            &&& i.lock_win == (s[21] != 0)
            &&& polling_rate_of(s[22]) == Some(i.polling_rate)
            &&& i.reserved23 == s[23]
            &&& i.reserved24 == s[24]
            &&& i.reserved25 == s[25]
            &&& i.reserved26 == s[26]
            &&& i.mac_mode == (s[27] != 0)
            &&& i.enable_light == (s[28] != 0)
            &&& i.reserved29 == s[29]
            &&& i.reserved30 == s[30]
            &&& i.reserved31 == s[31]
            &&& i.reserved32 == s[32]
            &&& i.enable_smart_speed == (s[33] != 0)
            &&& i.enable_low_latency == s[34]
        },
        ({
            let b = info_bytes(info);
            &&& b.len() == 35
            &&& b[0] == 0
            &&& b[1] == light_mode_code(info.light_mode)
            &&& b[2] == info.light_brightness
            &&& b[3] == info.light_speed
            &&& b[4] == bool_byte(info.light_reverse)
            &&& b[5] == bool_byte(info.rainbow_mode)
            &&& b[6] == info.static_color[0]
            &&& b[7] == info.static_color[1]
            &&& b[8] == info.static_color[2]
            &&& b[9] == info.color_index
            &&& b[10] == info.custom_color[0]
            &&& b[11] == info.custom_color[1]
            &&& b[12] == info.custom_color[2]
            &&& b[13] + 256 * b[14] == info.sleep_time
            &&& b[15] == info.reserved15
            &&& b[16] == info.reserved16
            &&& b[17] == info.reserved17
            &&& b[18] == info.color_trigger_mode
            &&& b[19] == bool_byte(info.swap_wasd)
            &&& b[20] == bool_byte(info.all_key_punchless)
            &&& b[21] == bool_byte(info.lock_win)
            &&& b[22] == polling_rate_code(info.polling_rate)
            &&& b[23] == info.reserved23
            &&& b[24] == info.reserved24
            &&& b[25] == info.reserved25
            &&& b[26] == info.reserved26
            &&& b[27] == bool_byte(info.mac_mode)
            &&& b[28] == bool_byte(info.enable_light)
            &&& b[29] == info.reserved29
            &&& b[30] == info.reserved30
            &&& b[31] == info.reserved31
            &&& b[32] == info.reserved32
            &&& b[33] == bool_byte(info.enable_smart_speed)
            &&& b[34] == info.enable_low_latency
        }),
{
}

/// The stored light level is the larger of 4 and the requested one: never
/// below 4, never below the request, and either 4 or the request itself.
pub proof fn lemma_light_level_is_max_with_four()
    ensures
        forall|v: u8|
            #[trigger] light_level(v) >= 4 && light_level(v) >= v && (light_level(v) == 4
                || light_level(v) == v),
{
}

/// Where each part of a frame sits: an encoded frame is the two magic zero
/// bytes, the command byte, the payload length, the offset low byte first, a
/// zero byte and the payload; a decoded frame takes its command from byte 2,
/// its offset from bytes 4 and 5 (low byte first) and its payload, of the
/// command's payload length, from byte 7 on.
pub proof fn lemma_frame_field_positions(cmd: WsCmd, offset: u16, data: Seq<u8>, s: Seq<u8>)
    requires
        cmd != WsCmd::Error,
    ensures
        ({
            let b = frame_bytes(cmd, offset, data);
            &&& b.len() == 7 + data.len()
            &&& b[0] == 0 && b[1] == 0
            &&& Some(b[2]) == cmd_code(cmd)
            &&& b[3] == data.len() as u8
            &&& b[4] + 256 * b[5] == offset
            &&& b[6] == 0
            &&& b.subrange(7, b.len() as int) == data
        }),
        parse_frame(s) matches Ok((c, o, d)) ==> {
            &&& s[0] == 0 && s[1] == 0
            &&& c == cmd_of_code(s[2])
            &&& o == s[4] + 256 * s[5]
            &&& d.len() == c.payload_len()
            &&& d.len() > 0 ==> d == s.subrange(7, 7 + d.len() as int)
        },
{
    let b = frame_bytes(cmd, offset, data);
    assert(b.subrange(7, b.len() as int) =~= data);
}

/// The data lengths fit what is read from the gathered data: the settings
/// record fills the settings commands' data exactly, the version sits in the
/// last two of the 30 version bytes, the battery data is its two bytes, and
/// no command's frame payload exceeds its data length or 56 bytes.
pub proof fn lemma_data_lengths_fit(info: FunctionInfo)
    ensures
        info_bytes(info).len() == WsCmd::GetFunctionInfo.data_len(),
        info_bytes(info).len() == WsCmd::SetFunctionInfo.data_len(),
        WsCmd::GetVersion.data_len() == 30,
        WsCmd::GetBatteryLevel.data_len() == 2,
        forall|c: WsCmd| #[trigger] c.payload_len() <= c.data_len(),
        forall|c: WsCmd| #[trigger] c.payload_len() <= 56,
{
}

} // verus!
