use vstd::prelude::*;
use vstd::arithmetic::div_mod::{lemma_div_pos_is_pos, lemma_mod_pos_bound, lemma_fundamental_div_mod, lemma_fundamental_div_mod_converse_div, lemma_mod_self_0, lemma_small_mod};

verus! {

/// Rows of samples, one row per channel.
pub type Matrix<T> = Vec<Vec<T>>;

/// Every row of `m` holds `frames` samples.
pub open spec fn full_rows<T>(m: Seq<Vec<T>>, frames: nat) -> bool {
    forall|c: int| 0 <= c < m.len() ==> (#[trigger] m[c])@.len() == frames
}

/// Samples of a stream of `len` samples that go to channel `c` of `channels`.
pub open spec fn row_len(len: int, channels: int, c: int) -> int {
    (len + channels - 1 - c) / channels
}

/// Interleaved samples split into `channels` rows, the samples going to the
/// channels in turn: sample `i` of row `c` is sample `i * channels + c` of
/// the stream, and row `c` takes every such sample of the stream.
pub open spec fn deinterleaved<T>(s: Seq<T>, channels: nat, m: Seq<Vec<T>>) -> bool {
    &&& m.len() == channels
    &&& forall|c: int| 0 <= c < channels ==> (#[trigger] m[c])@.len() == row_len(s.len() as int, channels as int, c)
    &&& forall|c: int, i: int|
        0 <= c < channels && 0 <= i < m[c]@.len() ==> #[trigger] m[c]@[i] == s[i * channels + c]
}

proof fn lemma_row_len(len: int, ch: int, c: int, r: int)
    requires
        0 <= len,
        0 <= c < ch,
        0 <= r,
        r * ch + c >= len,
        r > 0 ==> (r - 1) * ch + c < len,
    ensures
        r == row_len(len, ch, c),
{
    let x = len + ch - 1 - c;
    if r == 0 {
        lemma_fundamental_div_mod_converse_div(x, ch, 0, x);
    } else {
        assert(r * ch == (r - 1) * ch + ch) by (nonlinear_arith);
        lemma_fundamental_div_mod_converse_div(x, ch, r, x - r * ch);
    }
}

/// Sample `j` of `s` stands in row `j % channels` of `m`, at `j / channels`.
pub open spec fn lands_at<T>(s: Seq<T>, channels: int, m: Seq<Vec<T>>, j: int) -> bool {
    j / channels < m[j % channels]@.len() && s[j] == m[j % channels]@[j / channels]
}

/// Sample `j` of a stream lands in row `j % channels`, at `j / channels`.
pub proof fn lemma_deinterleaved_index<T>(s: Seq<T>, channels: nat, m: Seq<Vec<T>>)
    requires
        channels > 0,
        deinterleaved(s, channels, m),
    ensures
        forall|j: int| 0 <= j < s.len() ==> #[trigger] lands_at(s, channels as int, m, j),
{
    let ch = channels as int;
    assert forall|j: int| 0 <= j < s.len() implies #[trigger] lands_at(s, ch, m, j) by {
        lemma_fundamental_div_mod(j, ch);
        lemma_mod_pos_bound(j, ch);
        lemma_div_pos_is_pos(j, ch);
        let c = j % ch;
        let i = j / ch;
        let x = s.len() + ch - 1 - c;
        lemma_fundamental_div_mod(x, ch);
        lemma_mod_pos_bound(x, ch);
        let r = x / ch;
        assert(m[c]@.len() == row_len(s.len() as int, ch, c));
        assert(m[c]@.len() == r);
        assert(i < r) by (nonlinear_arith)
            requires
                j == ch * i + c,
                j < s.len(),
                x == s.len() + ch - 1 - c,
                x == ch * r + x % ch,
                0 <= x % ch < ch,
                ch > 0;
        assert(i * ch + c == j) by (nonlinear_arith)
            requires j == ch * i + c;
        assert(m[c]@[i] == s[i * ch + c]);
    }
}

/// Splits interleaved samples into one row per channel, the samples going to
/// the channels in turn; when the stream ends inside a frame, the first rows
/// hold one sample more than the others.
pub fn stream_to_matrix<T: Copy>(stream: &Vec<T>, channels: usize) -> (r: Matrix<T>)
    requires
        channels > 0,
    ensures
        deinterleaved(stream@, channels as nat, r@),
        forall|j: int| 0 <= j < stream@.len() ==> #[trigger] lands_at(stream@, channels as int, r@, j),
{
    let len = stream.len();
    let mut out: Matrix<T> = Vec::new();
    let mut c: usize = 0;
    while c < channels
        invariant
            c <= channels,
            len == stream@.len(),
            out@.len() == c,
            forall|k: int| 0 <= k < c ==> (#[trigger] out@[k])@.len() == row_len(len as int, channels as int, k),
            forall|k: int, i: int|
                0 <= k < c && 0 <= i < out@[k]@.len() ==> #[trigger] out@[k]@[i] == stream@[i * channels
                    + k],
        decreases channels - c,
    {
        let mut row: Vec<T> = Vec::new();
        let mut next: usize = c;
        let mut has_next: bool = c < len;
        while has_next
            invariant
                c < channels,
                len == stream@.len(),
                row@.len() <= len,
                has_next ==> next < len && next == row@.len() * channels + c,
                !has_next ==> row@.len() * channels + c >= len,
                row@.len() > 0 ==> (row@.len() - 1) * channels + c < len,
                forall|i: int| 0 <= i < row@.len() ==> row@[i] == stream@[i * channels + c],
            decreases len - row@.len(),
        {
            proof {
                assert(row@.len() <= row@.len() * channels) by (nonlinear_arith)
                    requires channels >= 1;
                assert((row@.len() + 1) * channels == row@.len() * channels + channels) by (nonlinear_arith);
            }
            row.push(stream[next]);
            if len - next > channels {
                next = next + channels;
            } else {
                has_next = false;
            }
        }
        proof {
            lemma_row_len(len as int, channels as int, c as int, row@.len() as int);
        }
        out.push(row);
        c = c + 1;
    }
    proof {
        lemma_deinterleaved_index(stream@, channels as nat, out@);
    }
    out
}

/// A stream of whole frames splits into rows of one frame count each.
proof fn lemma_whole_frames(frames: int, ch: int, c: int)
    requires
        0 <= frames,
        0 <= c < ch,
    ensures
        row_len(frames * ch, ch, c) == frames,
{
    assert(frames * ch + ch - 1 - c == frames * ch + (ch - 1 - c));
    lemma_fundamental_div_mod_converse_div(frames * ch + ch - 1 - c, ch, frames, ch - 1 - c);
}

/// How many of `n` samples, tapped one after the other with `gathered`
/// samples already gathered, complete a snapshot of `frame` samples.
pub open spec fn snapshots_in(gathered: nat, n: nat, frame: nat) -> nat
    decreases n,
{
    if n == 0 || frame == 0 {
        0
    } else {
        (if gathered + 1 == frame { 1nat } else { 0nat }) + snapshots_in(
            ((gathered + 1) % frame) as nat,
            (n - 1) as nat,
            frame,
        )
    }
}

/// Once a snapshot's worth of samples (the buffer size times the channel
/// count) has passed through a tap, it has completed at least one snapshot,
/// however many samples it had gathered before.
pub proof fn lemma_snapshot_within_frame(gathered: nat, n: nat, frame: nat)
    requires
        gathered < frame,
        n >= frame,
    ensures
        snapshots_in(gathered, n, frame) >= 1,
    decreases n,
{
    lemma_snapshot_by(gathered, n, frame);
}

proof fn lemma_snapshot_by(gathered: nat, n: nat, frame: nat)
    requires
        gathered < frame,
        gathered + n >= frame,
    ensures
        snapshots_in(gathered, n, frame) >= 1,
    decreases n,
{
    if gathered + 1 != frame {
        lemma_small_mod(gathered + 1, frame);
        lemma_snapshot_by(gathered + 1, (n - 1) as nat, frame);
    }
}

/// The latest complete capture: one row of `frames` samples per channel, the
/// sample rate, and how many snapshots have replaced the first one.
pub struct AudioCapture<T> {
    data: Matrix<T>,
    channels: usize,
    frames: usize,
    sample_rate: u32,
    updates: u64,
}

/// What a capture shows its reader.
pub ghost struct CaptureModel<T> {
    pub data: Seq<Seq<T>>,
    pub channels: nat,
    pub frames: nat,
    pub sample_rate: u32,
    pub updates: nat,
}

impl<T> View for AudioCapture<T> {
    type V = CaptureModel<T>;

    closed spec fn view(&self) -> CaptureModel<T> {
        CaptureModel {
            data: self.data@.map_values(|row: Vec<T>| row@),
            channels: self.channels as nat,
            frames: self.frames as nat,
            sample_rate: self.sample_rate,
            updates: self.updates as nat,
        }
    }
}

impl<T: Copy> AudioCapture<T> {
    /// One row per channel, and every row complete.
    pub closed spec fn wf(&self) -> bool {
        self.data@.len() == self.channels && full_rows(self.data@, self.frames as nat)
    }

    /// The snapshot has one complete row per channel.
    pub proof fn lemma_rows_complete(&self)
        requires
            self.wf(),
        ensures
            self@.data.len() == self@.channels,
            forall|c: int| 0 <= c < self@.data.len() ==> (#[trigger] self@.data[c]).len() == self@.frames,
    {
    }

    /// A capture of `channels` rows of `buffer_size` copies of `silence`.
    pub fn new(channels: usize, buffer_size: usize, sample_rate: u32, silence: T) -> (r: AudioCapture<T>)
        ensures
            r.wf(),
            r@.data == Seq::new(channels as nat, |c: int| Seq::new(buffer_size as nat, |j: int| silence)),
            r@.channels == channels,
            r@.frames == buffer_size,
            r@.sample_rate == sample_rate,
            r@.updates == 0,
    {
        let mut data: Matrix<T> = Vec::new();
        let mut c: usize = 0;
        while c < channels
            invariant
                c <= channels,
                data@.len() == c,
                forall|k: int| 0 <= k < c ==> (#[trigger] data@[k])@ == Seq::new(buffer_size as nat, |j: int| silence),
            decreases channels - c,
        {
            let mut row: Vec<T> = Vec::new();
            let mut j: usize = 0;
            while j < buffer_size
                invariant
                    j <= buffer_size,
                    row@ == Seq::new(j as nat, |i: int| silence),
                decreases buffer_size - j,
            {
                row.push(silence);
                j = j + 1;
                assert(row@ =~= Seq::new(j as nat, |i: int| silence));
            }
            data.push(row);
            c = c + 1;
        }
        let r = AudioCapture { data, channels, frames: buffer_size, sample_rate, updates: 0 };
        assert(r@.data =~= Seq::new(channels as nat, |c: int| Seq::new(buffer_size as nat, |j: int| silence)));
        r
    }

    /// A copy of the latest complete snapshot.
    pub fn get_data(&self) -> (r: Matrix<T>)
        requires
            self.wf(),
        ensures
            r@.map_values(|row: Vec<T>| row@) == self@.data,
            full_rows(r@, self@.frames),
    {
        let mut out: Matrix<T> = Vec::new();
        let mut c: usize = 0;
        while c < self.data.len()
            invariant
                c <= self.data@.len(),
                out@.len() == c,
                forall|k: int| 0 <= k < c ==> (#[trigger] out@[k])@ == self.data@[k]@,
            decreases self.data@.len() - c,
        {
            let src = &self.data[c];
            let mut row: Vec<T> = Vec::new();
            let mut j: usize = 0;
            while j < src.len()
                invariant
                    j <= src@.len(),
                    row@ == src@.take(j as int),
                decreases src@.len() - j,
            {
                row.push(src[j]);
                j = j + 1;
                assert(row@ =~= src@.take(j as int));
            }
            assert(src@.take(j as int) =~= src@);
            out.push(row);
            c = c + 1;
        }
        assert(out@.map_values(|row: Vec<T>| row@) =~= self@.data);
        out
    }

    pub fn get_sample_rate(&self) -> (r: u32)
        ensures
            r == self@.sample_rate,
    {
        self.sample_rate
    }

    /// Samples per channel in a snapshot.
    pub fn buffer_size(&self) -> (r: usize)
        ensures
            r == self@.frames,
    {
        self.frames
    }

    /// How many snapshots have replaced the first one.
    pub fn updates(&self) -> (r: u64)
        ensures
            r == self@.updates,
    {
        self.updates
    }

    /// Puts a complete snapshot in place of the previous one, all at once.
    /// A snapshot without exactly one complete row per channel is refused.
    pub fn replace(&mut self, snapshot: Matrix<T>) -> (r: bool)
        requires
            old(self).wf(),
        ensures
            final(self).wf(),
            r == (snapshot@.len() == old(self)@.channels && full_rows(snapshot@, old(self)@.frames)),
            r ==> final(self)@ == (CaptureModel {
                data: snapshot@.map_values(|row: Vec<T>| row@),
                updates: if old(self)@.updates < u64::MAX { old(self)@.updates + 1 } else { old(self)@.updates },
                ..old(self)@
            }),
            !r ==> final(self)@ == old(self)@,
    {
        if snapshot.len() != self.channels {
            return false;
        }
        let mut c: usize = 0;
        while c < snapshot.len()
            invariant
                c <= snapshot@.len(),
                self.wf(),
                self@ == old(self)@,
                forall|k: int| 0 <= k < c ==> (#[trigger] snapshot@[k])@.len() == self.frames,
            decreases snapshot@.len() - c,
        {
            if snapshot[c].len() != self.frames {
                return false;
            }
            c = c + 1;
        }
        self.data = snapshot;
        if self.updates < u64::MAX {
            self.updates = self.updates + 1;
        }
        true
    }

    /// A tap for streams with this capture's channels interleaved, collecting
    /// a snapshot's worth of samples at a time.
    pub fn create_tap_source(&self) -> (r: TapSource<T>)
        requires
            self@.channels > 0,
            self@.channels * self@.frames <= usize::MAX,
            self@.frames > 0,
        ensures
            r.wf(),
            r.channels() == self@.channels,
            r.frames() == self@.frames,
            r@.len() == 0,
    {
        assert(self.channels * self.frames > 0) by (nonlinear_arith)
            requires self.channels > 0, self.frames > 0;
        TapSource { channels: self.channels, frames: self.frames, scratch: Vec::new() }
    }
}

/// Collects the samples that pass through a stream until a snapshot's worth
/// has gathered.
pub struct TapSource<T> {
    channels: usize,
    frames: usize,
    scratch: Vec<T>,
}

impl<T> View for TapSource<T> {
    type V = Seq<T>;

    /// The samples gathered toward the next snapshot.
    closed spec fn view(&self) -> Seq<T> {
        self.scratch@
    }
}

impl<T: Copy> TapSource<T> {
    pub closed spec fn channels(&self) -> nat {
        self.channels as nat
    }

    pub closed spec fn frames(&self) -> nat {
        self.frames as nat
    }

    /// Samples in one snapshot.
    pub open spec fn frame_len(&self) -> nat {
        self.channels() * self.frames()
    }

    pub closed spec fn wf(&self) -> bool {
        &&& self.channels > 0
        &&& self.frames > 0
        &&& self.channels * self.frames <= usize::MAX
        &&& self.scratch@.len() < self.channels * self.frames
    }

    /// Takes one sample that passes through. When it completes a snapshot's
    /// worth, the gathered samples come back split into channels, and the
    /// gathering starts afresh.
    pub fn tap(&mut self, sample: T) -> (r: Option<Matrix<T>>)
        requires
            old(self).wf(),
        ensures
            final(self).wf(),
            final(self).channels() == old(self).channels(),
            final(self).frames() == old(self).frames(),
            old(self)@.len() + 1 == old(self).frame_len() ==> final(self)@.len() == 0 && r.is_some()
                && deinterleaved(old(self)@.push(sample), old(self).channels(), r.unwrap()@)
                && full_rows(r.unwrap()@, old(self).frames()),
            old(self)@.len() + 1 < old(self).frame_len() ==> final(self)@ == old(self)@.push(sample)
                && r.is_none(),
            final(self)@.len() == (old(self)@.len() + 1) % old(self).frame_len(),
            r.is_some() == (old(self)@.len() + 1 == old(self).frame_len()),
    {
        proof {
            if old(self)@.len() + 1 < old(self).frame_len() {
                lemma_small_mod((old(self)@.len() + 1) as nat, old(self).frame_len());
            } else {
                lemma_mod_self_0(old(self).frame_len() as int);
            }
        }
        self.scratch.push(sample);
        if self.scratch.len() >= self.channels * self.frames {
            let m = stream_to_matrix(&self.scratch, self.channels);
            proof {
                assert(self.scratch@.len() == self.frames * self.channels) by (nonlinear_arith)
                    requires self.scratch@.len() == self.channels * self.frames;
                assert forall|c: int| 0 <= c < m@.len() implies (#[trigger] m@[c])@.len() == self.frames by {
                    lemma_whole_frames(self.frames as int, self.channels as int, c);
                }
            }
            self.scratch.clear();
            Some(m)
        } else {
            None
        }
    }
}

} // verus!
