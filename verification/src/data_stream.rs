//! The data-stream ("DMA") engine.
//!
//! A [`DataStream`] is an independently clocked channel that reads bytes
//! out of an attached [`DataBlock`] and delivers them as register writes,
//! one byte each time its own frequency crosses the hosting chip's native
//! tick. Streams on one device can run in parallel or be merged as signed
//! 8-bit PCM (see [`spec_merge_rebias`]).

use vstd::prelude::*;

verus! {

/// An immutable byte buffer identified by a numeric id, owned by the
/// sound slot and borrowed by stream lookups.
pub struct DataBlock {
    data: Vec<u8>,
}

impl DataBlock {
    /// The stored bytes.
    pub closed spec fn view(&self) -> Seq<u8> {
        self.data@
    }

    /// Copy `data` into a new block.
    pub fn new(data: &[u8]) -> (r: DataBlock)
        ensures
            r@ == data@,
    {
        DataBlock { data: vstd::slice::slice_to_vec(data) }
    }

    /// Borrow the stored bytes.
    pub fn get_data_block(&self) -> (r: &[u8])
        ensures
            r@ == self@,
    {
        self.data.as_slice()
    }

    /// The number of stored bytes.
    pub fn len(&self) -> (r: usize)
        ensures
            r == self@.len(),
    {
        self.data.len()
    }
}

/// The observable state of a [`DataStream`].
pub struct DataStreamView {
    /// Target write port.
    pub write_port: u32,
    /// Target write register.
    pub write_reg: u32,
    /// The hosting chip's native rate the pace was tuned against.
    pub sampling_rate: u32,
    /// Bytes per second this stream wants to deliver.
    pub frequency: u32,
    /// Pace phase, in rate units below `sampling_rate` once the pace ran.
    pub pace: u32,
    /// The id of the attached data block.
    pub data_block_id: usize,
    /// Cursor into the attached block.
    pub pos: usize,
    /// Bytes still to deliver before the stream auto-stops.
    pub remain: usize,
    /// Whether the stream was started and has not stopped.
    pub playing: bool,
}

/// Whether a stream delivers a byte on this tick: it must be running with
/// bytes left, its rates must be tuned, and its pace must cross the native
/// rate.
pub open spec fn spec_stream_emits(s: DataStreamView) -> bool {
    &&& s.playing
    &&& s.remain > 0
    &&& s.sampling_rate > 0
    &&& s.frequency > 0
    &&& s.pace + s.frequency >= s.sampling_rate
}

/// What a tick emits: the attached block id, the cursor, and the target
/// port and register — or nothing when the pace does not cross.
pub open spec fn spec_stream_tick_emit(s: DataStreamView) -> Option<(usize, usize, u32, u32)> {
    if spec_stream_emits(s) {
        Some((s.data_block_id, s.pos, s.write_port, s.write_reg))
    } else {
        None
    }
}

/// The stream state after one tick: a running, tuned stream accumulates
/// its frequency into the pace; on a crossing the pace wraps, the cursor
/// advances, and the stream auto-stops when the last byte went out.
pub open spec fn spec_stream_tick_state(s: DataStreamView) -> DataStreamView {
    if !(s.playing && s.remain > 0 && s.sampling_rate > 0 && s.frequency > 0) {
        s
    } else if s.pace + s.frequency < s.sampling_rate {
        DataStreamView { pace: (s.pace + s.frequency) as u32, ..s }
    } else {
        DataStreamView {
            pace: ((s.pace + s.frequency) % (s.sampling_rate as int)) as u32,
            pos: if s.pos == usize::MAX {
                s.pos
            } else {
                (s.pos + 1) as usize
            },
            remain: (s.remain - 1) as usize,
            playing: s.remain > 1,
            ..s
        }
    }
}

/// One per-channel DMA player.
pub struct DataStream {
    write_port: u32,
    write_reg: u32,
    sampling_rate: u32,
    frequency: u32,
    pace: u32,
    data_block_id: usize,
    pos: usize,
    remain: usize,
    playing: bool,
}

impl View for DataStream {
    type V = DataStreamView;

    closed spec fn view(&self) -> DataStreamView {
        DataStreamView {
            write_port: self.write_port,
            write_reg: self.write_reg,
            sampling_rate: self.sampling_rate,
            frequency: self.frequency,
            pace: self.pace,
            data_block_id: self.data_block_id,
            pos: self.pos,
            remain: self.remain,
            playing: self.playing,
        }
    }
}

impl DataStream {
    /// A stopped stream aimed at `write_port` / `write_reg`, not yet
    /// tuned and with no block attached.
    pub fn new(write_port: u32, write_reg: u32) -> (r: DataStream)
        ensures
            r@ == (DataStreamView {
                write_port,
                write_reg,
                sampling_rate: 0u32,
                frequency: 0u32,
                pace: 0u32,
                data_block_id: 0usize,
                pos: 0usize,
                remain: 0usize,
                playing: false,
            }),
    {
        DataStream {
            write_port,
            write_reg,
            sampling_rate: 0,
            frequency: 0,
            pace: 0,
            data_block_id: 0,
            pos: 0,
            remain: 0,
            playing: false,
        }
    }

    /// Retune the pace against the hosting chip's native rate.
    pub fn set_frequency(&mut self, sampling_rate: u32, frequency: u32)
        ensures
            final(self)@ == (DataStreamView { sampling_rate, frequency, ..old(self)@ }),
    {
        self.sampling_rate = sampling_rate;
        self.frequency = frequency;
    }

    /// Attach the stream to a data block id.
    pub fn set_data_block_id(&mut self, data_block_id: usize)
        ensures
            final(self)@ == (DataStreamView { data_block_id, ..old(self)@ }),
    {
        self.data_block_id = data_block_id;
    }

    /// Start playback: reset the cursor to `data_block_start_offset` (or
    /// to the block start), arm the length counter and the pace.
    pub fn start_data_stream(
        &mut self,
        data_block_start_offset: Option<usize>,
        data_block_length: usize,
    )
        ensures
            final(self)@ == (DataStreamView {
                pos: match data_block_start_offset {
                    Some(offset) => offset,
                    None => 0usize,
                },
                remain: data_block_length,
                pace: 0u32,
                playing: true,
                ..old(self)@
            }),
    {
        self.pos = match data_block_start_offset {
            Some(offset) => offset,
            None => 0,
        };
        self.remain = data_block_length;
        self.pace = 0;
        self.playing = true;
    }

    /// Stop playback without touching the cursor.
    pub fn stop_data_stream(&mut self)
        ensures
            final(self)@ == (DataStreamView { playing: false, ..old(self)@ }),
    {
        self.playing = false;
    }

    /// Whether the stream is stopped — never started, stopped explicitly,
    /// or auto-stopped after its last byte. No side effects.
    pub fn is_stop_data_stream(&self) -> (r: bool)
        ensures
            r == (!self@.playing || self@.remain == 0),
    {
        !self.playing || self.remain == 0
    }

    /// Advance the stream by one chip tick; on a pace crossing, hand out
    /// what to deliver and step the cursor.
    pub fn tick(&mut self) -> (r: Option<(usize, usize, u32, u32)>)
        ensures
            r == spec_stream_tick_emit(old(self)@),
            final(self)@ == spec_stream_tick_state(old(self)@),
    {
        if !self.playing || self.remain == 0 || self.sampling_rate == 0 || self.frequency == 0 {
            return None;
        }
        let pace_wide: u64 = self.pace as u64 + self.frequency as u64;
        if pace_wide < self.sampling_rate as u64 {
            self.pace = pace_wide as u32;
            return None;
        }
        self.pace = (pace_wide % self.sampling_rate as u64) as u32;
        let emitted = (self.data_block_id, self.pos, self.write_port, self.write_reg);
        if self.pos < usize::MAX {
            self.pos = self.pos + 1;
        }
        self.remain = self.remain - 1;
        if self.remain == 0 {
            self.playing = false;
        }
        Some(emitted)
    }
}

/// Whether two stream states agree on everything a tick never changes:
/// the write target, the tuned rates, and the attached block.
pub open spec fn stream_tuning_eq(a: DataStreamView, b: DataStreamView) -> bool {
    &&& a.write_port == b.write_port
    &&& a.write_reg == b.write_reg
    &&& a.sampling_rate == b.sampling_rate
    &&& a.frequency == b.frequency
    &&& a.data_block_id == b.data_block_id
}

/// A tick never changes a stream's write target, tuned rates, or
/// attached block.
pub proof fn lemma_tick_preserves_tuning(s: DataStreamView)
    ensures
        stream_tuning_eq(spec_stream_tick_state(s), s),
{
}

/// Whether a pass over a stream table kept every stream's id and tuning:
/// same length, same keys, and per stream the write target, rates and
/// attached block unchanged (only gates, cursors and play state moved).
pub open spec fn streams_tuning_preserved(
    pre: Seq<(usize, DataStream)>,
    post: Seq<(usize, DataStream)>,
) -> bool {
    &&& post.len() == pre.len()
    &&& forall|j: int|
        0 <= j < pre.len() ==> (#[trigger] post[j]).0 == pre[j].0 && stream_tuning_eq(
            post[j].1@,
            pre[j].1@,
        )
}

/// Keeping every stream untouched keeps every tuning.
pub proof fn lemma_streams_tuning_refl(s: Seq<(usize, DataStream)>)
    ensures
        streams_tuning_preserved(s, s),
{
}

/// Tuning preservation composes across consecutive passes.
pub proof fn lemma_streams_tuning_trans(
    a: Seq<(usize, DataStream)>,
    b: Seq<(usize, DataStream)>,
    c: Seq<(usize, DataStream)>,
)
    requires
        streams_tuning_preserved(a, b),
        streams_tuning_preserved(b, c),
    ensures
        streams_tuning_preserved(a, c),
{
    assert forall|j: int|
        0 <= j < a.len() implies (#[trigger] c[j]).0 == a[j].0 && stream_tuning_eq(c[j].1@, a[j].1@) by {
        assert(b[j].0 == a[j].0 && stream_tuning_eq(b[j].1@, a[j].1@));
        assert(c[j].0 == b[j].0 && stream_tuning_eq(c[j].1@, b[j].1@));
    }
}

/// Ticking the stream at one position preserves every tuning.
pub proof fn lemma_streams_tuning_tick_at(
    pre: Seq<(usize, DataStream)>,
    post: Seq<(usize, DataStream)>,
    at: int,
)
    requires
        0 <= at < pre.len(),
        post.len() == pre.len(),
        forall|j: int| 0 <= j < pre.len() && j != at ==> post[j] == pre[j],
        post[at].0 == pre[at].0,
        post[at].1@ == spec_stream_tick_state(pre[at].1@),
    ensures
        streams_tuning_preserved(pre, post),
{
    assert forall|j: int|
        0 <= j < pre.len() implies (#[trigger] post[j]).0 == pre[j].0 && stream_tuning_eq(
        post[j].1@,
        pre[j].1@,
    ) by {
        if j == at {
            lemma_tick_preserves_tuning(pre[at].1@);
        }
    }
}

/// The byte `b` read as a signed 8-bit PCM value.
pub open spec fn spec_s8(b: u8) -> int {
    if b < 128 {
        b as int
    } else {
        b - 256
    }
}

/// The sum of a sequence of bytes, each read as signed 8-bit PCM.
pub open spec fn spec_s8_sum(bytes: Seq<u8>) -> int
    decreases bytes.len(),
{
    if bytes.len() == 0 {
        0
    } else {
        spec_s8_sum(bytes.drop_last()) + spec_s8(bytes.last())
    }
}

/// A signed 8-bit mixing sum clamped to the signed range and rebiased to
/// the unsigned bus convention: `clamp(sum, -128..=127) + 128`.
pub open spec fn spec_merge_rebias(sum: int) -> u32 {
    (crate::sample::spec_clamp(sum, -128, 127) + 128) as u32
}

/// Read one byte as signed 8-bit PCM.
pub fn sample_s8(b: u8) -> (r: i32)
    ensures
        r as int == spec_s8(b),
{
    if b < 128 {
        b as i32
    } else {
        b as i32 - 256
    }
}

/// Clamp and rebias a signed mixing sum for the unsigned 8-bit bus.
pub fn merge_rebias(sum: i128) -> (r: u32)
    ensures
        r == spec_merge_rebias(sum as int),
{
    if sum > 127 {
        255
    } else if sum < -128 {
        0
    } else {
        (sum + 128) as u32
    }
}

} // verus!
