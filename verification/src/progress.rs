//! Transfer state: the sliding-window throughput sampler, the progress-line
//! renderer, and the state machine driving the chunked read loop.
use vstd::prelude::*;
use vstd::string::*;
use std::collections::VecDeque;

use crate::http::DownloadError;
use crate::units::{
    as_time_unit, dec_digits, pad_dec, pad_left, spec_size_string, spec_time_suffix, time_suffix,
};

verus! {

/// How many per-second byte counts the sample window keeps.
pub const SPEED_SAMPLES: usize = 5;

/// The sum of a sequence of byte counts.
pub open spec fn seq_sum(s: Seq<usize>) -> nat
    decreases s.len(),
{
    if s.len() == 0 {
        0
    } else {
        (s[0] + seq_sum(s.drop_first())) as nat
    }
}

/// Removing the last element takes exactly that element out of the sum.
pub proof fn lemma_seq_sum_drop_last(s: Seq<usize>)
    requires
        s.len() > 0,
    ensures
        seq_sum(s) == seq_sum(s.drop_last()) + s.last(),
    decreases s.len(),
{
    if s.len() == 1 {
        assert(s.drop_last() =~= Seq::<usize>::empty());
        assert(s.drop_first() =~= Seq::<usize>::empty());
    } else {
        lemma_seq_sum_drop_last(s.drop_first());
        assert(s.drop_first().drop_last() =~= s.drop_last().drop_first());
    }
}

/// Prepending an element adds exactly that element to the sum.
pub proof fn lemma_seq_sum_push_front(x: usize, s: Seq<usize>)
    ensures
        seq_sum(seq![x] + s) == x + seq_sum(s),
{
    assert((seq![x] + s).drop_first() =~= s);
    assert((seq![x] + s)[0] == x);
}

/// The sample window after committing a just-finished second that moved `d`
/// bytes: `d` becomes the newest sample in front, and the oldest sample is
/// evicted once the window is full.
pub open spec fn spec_commit(window: Seq<usize>, d: usize) -> Seq<usize> {
    if window.len() >= SPEED_SAMPLES {
        seq![d] + window.drop_last()
    } else {
        seq![d] + window
    }
}

/// The sample window never exceeds its fixed depth: committing a sample into
/// a bounded window leaves it bounded, however full it was.
pub proof fn lemma_commit_bounded(window: Seq<usize>, d: usize)
    requires
        window.len() <= SPEED_SAMPLES,
    ensures
        spec_commit(window, d).len() <= SPEED_SAMPLES,
{
}

/// The smoothed speed estimate: the mean of the window samples; with an empty
/// window, the advertised total length when one is known, else zero.
pub open spec fn spec_speed(window: Seq<usize>, content_len: Option<usize>) -> nat {
    if window.len() > 0 {
        seq_sum(window) / window.len()
    } else {
        match content_len {
            Some(len) => len as nat,
            None => 0,
        }
    }
}

/// The live state of one transfer. Created at the start, mutated on every
/// chunk and every elapsed-second tick, discarded when the stream ends.
pub struct TransferState {
    /// The advertised total length, when the response carried one.
    pub content_len: Option<usize>,
    /// The accumulated body bytes, in arrival order.
    pub data: Vec<u8>,
    /// Bytes received over the whole transfer; never decreases.
    pub total_downloaded: usize,
    /// Bytes received since the last committed sample.
    pub downloaded_this_sec: usize,
    /// Per-second byte counts, most recent first, at most `SPEED_SAMPLES`.
    pub window: VecDeque<usize>,
    /// Running sum of `window`, kept in lockstep for constant-time estimates.
    pub window_sum: usize,
    /// When the last sample was committed, in milliseconds since the
    /// transfer began; `None` until the first chunk arrives.
    pub last_tick_ms: Option<u64>,
    /// Character count of the previously rendered status line, if any; what a
    /// redraw must erase.
    pub displayed_charcount: Option<usize>,
}

impl TransferState {
    /// Internal consistency: the window is bounded, the running sum matches
    /// it, the buffer holds exactly the counted bytes, and no sample ever
    /// exceeds what was actually downloaded.
    pub open spec fn wf(self) -> bool {
        &&& self.window@.len() <= SPEED_SAMPLES
        &&& self.window_sum == seq_sum(self.window@)
        &&& self.data@.len() == self.total_downloaded
        &&& seq_sum(self.window@) + self.downloaded_this_sec <= self.total_downloaded
    }

    /// Fresh state for a transfer whose advertised length, if any, is
    /// `content_len`.
    pub fn new(content_len: Option<usize>) -> (r: TransferState)
        ensures
            r.wf(),
            r.content_len == content_len,
            r.data@ == Seq::<u8>::empty(),
            r.total_downloaded == 0,
            r.downloaded_this_sec == 0,
            r.window@ == Seq::<usize>::empty(),
            r.last_tick_ms is None,
            r.displayed_charcount is None,
    {
        TransferState {
            content_len,
            data: Vec::new(),
            total_downloaded: 0,
            downloaded_this_sec: 0,
            window: VecDeque::with_capacity(SPEED_SAMPLES),
            window_sum: 0,
            last_tick_ms: None,
            displayed_charcount: None,
        }
    }

    /// Commits the just-finished second: the in-progress byte count becomes
    /// the newest sample (evicting the oldest if the window is full) and the
    /// in-progress counter resets to zero.
    pub fn commit_sample(&mut self)
        requires
            old(self).wf(),
        ensures
            final(self).wf(),
            final(self).window@ == spec_commit(old(self).window@, old(self).downloaded_this_sec),
            final(self).downloaded_this_sec == 0,
            final(self).content_len == old(self).content_len,
            final(self).data == old(self).data,
            final(self).total_downloaded == old(self).total_downloaded,
            final(self).last_tick_ms == old(self).last_tick_ms,
            final(self).displayed_charcount == old(self).displayed_charcount,
    {
        if self.window.len() == SPEED_SAMPLES {
            proof {
                lemma_seq_sum_drop_last(self.window@);
            }
            let evicted = self.window.pop_back();
            match evicted {
                Some(e) => {
                    self.window_sum = self.window_sum - e;
                },
                None => {},
            }
            proof {
                assert(self.window@ =~= old(self).window@.drop_last());
            }
        }
        proof {
            lemma_seq_sum_push_front(self.downloaded_this_sec, self.window@);
        }
        self.window.push_front(self.downloaded_this_sec);
        self.window_sum = self.window_sum + self.downloaded_this_sec;
        self.downloaded_this_sec = 0;
    }

    /// The smoothed speed estimate in bytes per second. With samples in the
    /// window it is their mean; with an empty window it is the advertised
    /// length when known (one large chunk may arrive before the first tick),
    /// or zero when no length is known.
    pub fn speed(&self) -> (r: usize)
        requires
            self.wf(),
        ensures
            r == spec_speed(self.window@, self.content_len),
    {
        let len = self.window.len();
        if len > 0 {
            self.window_sum / len
        } else {
            match self.content_len {
                Some(l) => l,
                None => 0,
            }
        }
    }
}

/// The rounded percentage of `total` out of `len` (half up); zero when no
/// length is advertised at all, a decided edge for a zero-length response.
/// Deliberately not clamped: a server delivering more bytes than it
/// advertised shows over one hundred percent.
pub open spec fn spec_percent(total: nat, len: nat) -> nat {
    if len == 0 {
        0
    } else {
        (100 * total + len / 2) / len
    }
}

/// Estimated seconds remaining: bytes still owed divided by the speed
/// estimate, zero when the speed is zero (avoids division by zero) and with
/// the owed bytes clamped at zero when more arrived than were advertised.
pub open spec fn spec_eta(total: nat, len: nat, speed: nat) -> nat {
    let remaining = if len >= total {
        (len - total) as nat
    } else {
        0
    };
    if speed == 0 {
        0
    } else {
        remaining / speed
    }
}

/// The full status line for one moment of a transfer. With a known length:
/// downloaded, total, percent, speed, elapsed time and ETA; without one:
/// downloaded, speed and elapsed time.
pub open spec fn spec_render(
    content_len: Option<usize>,
    total: nat,
    window: Seq<usize>,
    elapsed_secs: nat,
) -> Seq<char> {
    let speed = spec_speed(window, content_len);
    match content_len {
        Some(len) => spec_size_string(total, false) + " / "@ + spec_size_string(len as nat, false)
            + " ("@ + pad_left(dec_digits(spec_percent(total, len as nat)), 3) + " %) "@
            + spec_size_string(speed, true) + " in "@ + spec_time_suffix(elapsed_secs) + " ETA: "@
            + spec_time_suffix(spec_eta(total, len as nat, speed)),
        None => "Total: "@ + spec_size_string(total, false) + " Speed: "@ + spec_size_string(
            speed,
            true,
        ) + " Elapsed: "@ + spec_time_suffix(elapsed_secs),
    }
}

/// The rounded percentage of `total` bytes out of an advertised `len`.
pub fn percent(total: usize, len: usize) -> (r: u128)
    ensures
        r == spec_percent(total as nat, len as nat),
{
    if len == 0 {
        0
    } else {
        (100 * (total as u128) + (len as u128) / 2) / (len as u128)
    }
}

/// Estimated seconds remaining given downloaded bytes, the advertised length
/// and a speed estimate.
pub fn eta(total: usize, len: usize, speed: usize) -> (r: u64)
    ensures
        r == spec_eta(total as nat, len as nat, speed as nat),
{
    let remaining: usize = if len >= total {
        len - total
    } else {
        0
    };
    if speed == 0 {
        0
    } else {
        (remaining / speed) as u64
    }
}

impl TransferState {
    /// Formats the current transfer state into one human-readable status
    /// line, a pure function of the state and the elapsed whole seconds.
    pub fn render_line(&self, elapsed_secs: u64) -> (r: String)
        requires
            self.wf(),
        ensures
            r@ == spec_render(
                self.content_len,
                self.total_downloaded as nat,
                self.window@,
                elapsed_secs as nat,
            ),
    {
        let speed = self.speed();
        match self.content_len {
            Some(len) => {
                let mut out = as_time_unit(self.total_downloaded, false);
                out.append(" / ");
                let len_str = as_time_unit(len, false);
                out.append(len_str.as_str());
                out.append(" (");
                let pct_str = pad_dec(percent(self.total_downloaded, len), 3);
                out.append(pct_str.as_str());
                out.append(" %) ");
                let speed_str = as_time_unit(speed, true);
                out.append(speed_str.as_str());
                out.append(" in ");
                let elapsed_str = time_suffix(elapsed_secs);
                out.append(elapsed_str.as_str());
                out.append(" ETA: ");
                let eta_str = time_suffix(eta(self.total_downloaded, len, speed));
                out.append(eta_str.as_str());
                out
            },
            None => {
                let mut out = String::from_str("Total: ");
                let total_str = as_time_unit(self.total_downloaded, false);
                out.append(total_str.as_str());
                out.append(" Speed: ");
                let speed_str = as_time_unit(speed, true);
                out.append(speed_str.as_str());
                out.append(" Elapsed: ");
                let elapsed_str = time_suffix(elapsed_secs);
                out.append(elapsed_str.as_str());
                out
            },
        }
    }
}

/// One outcome of attempting to read a chunk from the response stream.
pub enum ReadEvent {
    /// The read yielded these bytes.
    Chunk(Vec<u8>),
    /// The read was interrupted; it is retried and counts no progress.
    Interrupted,
    /// The stream ended: a read of zero bytes.
    Eof,
    /// The read failed hard; the error propagates to the caller unchanged.
    Failed,
}

/// What the read loop must do after one event has been absorbed.
pub enum StepAction {
    /// Keep reading; nothing to draw.
    Proceed,
    /// Overwrite `erase` previously drawn characters with spaces, return to
    /// column zero, draw `line`, and return to column zero again.
    Redraw { erase: usize, line: String },
    /// The transfer is done: draw `line` once more, then a trailing newline.
    Finished { line: String },
    /// The transfer failed: propagate the error and leave any partially
    /// drawn status line untouched.
    Aborted,
}

/// Whether a whole second has elapsed since the last committed tick. Before
/// the first chunk arrives there is no tick clock, so nothing is committed.
pub open spec fn spec_ticked(s: TransferState, now_ms: u64) -> bool {
    match s.last_tick_ms {
        None => false,
        Some(t) => now_ms as int >= t as int + 1000,
    }
}

/// How many characters a redraw must erase: the width of the previously
/// rendered line, or nothing when no line was drawn yet.
pub open spec fn spec_erase(displayed: Option<usize>) -> usize {
    match displayed {
        Some(n) => n,
        None => 0,
    }
}

impl TransferState {
    /// Absorbs one read event at `now_ms` milliseconds since the transfer
    /// began and says what the loop must do next. An interrupted read changes
    /// nothing and is simply retried; a hard failure aborts with the state
    /// untouched; the end of the stream yields one final render; a chunk is
    /// accumulated, and when a whole second has elapsed since the last tick a
    /// sample is committed and a fresh status line is rendered.
    pub fn step(&mut self, event: ReadEvent, now_ms: u64) -> (action: StepAction)
        requires
            old(self).wf(),
            event matches ReadEvent::Chunk(c) ==> old(self).total_downloaded + c@.len()
                <= usize::MAX,
        ensures
            final(self).wf(),
            final(self).content_len == old(self).content_len,
            old(self).total_downloaded <= final(self).total_downloaded,
            event is Interrupted ==> *final(self) == *old(self) && action is Proceed,
            event is Failed ==> *final(self) == *old(self) && action is Aborted,
            event is Eof ==> *final(self) == *old(self) && (action matches StepAction::Finished {
                line,
            } && line@ == spec_render(
                old(self).content_len,
                old(self).total_downloaded as nat,
                old(self).window@,
                (now_ms / 1000) as nat,
            )),
            event matches ReadEvent::Chunk(c) ==> {
                &&& final(self).data@ == old(self).data@ + c@
                &&& final(self).total_downloaded == old(self).total_downloaded + c@.len()
                &&& if spec_ticked(*old(self), now_ms) {
                    &&& final(self).window@ == spec_commit(
                        old(self).window@,
                        (old(self).downloaded_this_sec + c@.len()) as usize,
                    )
                    &&& final(self).downloaded_this_sec == 0
                    &&& final(self).last_tick_ms == Some(now_ms)
                    &&& (action matches StepAction::Redraw { erase, line } && {
                        &&& erase == spec_erase(old(self).displayed_charcount)
                        &&& line@ == spec_render(
                            final(self).content_len,
                            final(self).total_downloaded as nat,
                            final(self).window@,
                            (now_ms / 1000) as nat,
                        )
                        &&& final(self).displayed_charcount == Some(line@.len() as usize)
                    })
                } else {
                    &&& final(self).window@ == old(self).window@
                    &&& final(self).downloaded_this_sec == old(self).downloaded_this_sec
                        + c@.len()
                    &&& final(self).last_tick_ms == (if old(self).last_tick_ms is Some {
                        old(self).last_tick_ms
                    } else {
                        Some(now_ms)
                    })
                    &&& final(self).displayed_charcount == old(self).displayed_charcount
                    &&& action is Proceed
                }
            },
    {
        match event {
            ReadEvent::Interrupted => StepAction::Proceed,
            ReadEvent::Failed => StepAction::Aborted,
            ReadEvent::Eof => {
                let line = self.render_line(now_ms / 1000);
                StepAction::Finished { line }
            },
            ReadEvent::Chunk(chunk) => {
                let n = chunk.len();
                let mut incoming = chunk;
                self.data.append(&mut incoming);
                self.total_downloaded = self.total_downloaded + n;
                self.downloaded_this_sec = self.downloaded_this_sec + n;
                let ticked: bool = match self.last_tick_ms {
                    None => {
                        self.last_tick_ms = Some(now_ms);
                        false
                    },
                    Some(t) => now_ms >= t && now_ms - t >= 1000,
                };
                if ticked {
                    self.commit_sample();
                    let erase = match self.displayed_charcount {
                        Some(prev) => prev,
                        None => 0,
                    };
                    let line = self.render_line(now_ms / 1000);
                    let count = line.as_str().unicode_len();
                    self.displayed_charcount = Some(count);
                    self.last_tick_ms = Some(now_ms);
                    StepAction::Redraw { erase, line }
                } else {
                    StepAction::Proceed
                }
            },
        }
    }
}

/// One read outcome together with when it happened, in milliseconds since
/// the transfer began.
pub struct TimedEvent {
    /// When the read completed, on the transfer's clock.
    pub at_ms: u64,
    /// What the read yielded.
    pub event: ReadEvent,
}

/// What a stream of read events amounts to: the accumulated bytes at the
/// first end-of-stream, a failure if a hard read error comes first, and
/// nothing (`None`) if the events run out with no terminal outcome.
pub open spec fn spec_download(events: Seq<TimedEvent>, acc: Seq<u8>) -> Option<
    Result<Seq<u8>, ()>,
>
    decreases events.len(),
{
    if events.len() == 0 {
        None
    } else {
        match events[0].event {
            ReadEvent::Eof => Some(Ok(acc)),
            ReadEvent::Failed => Some(Err(())),
            ReadEvent::Chunk(c) => spec_download(events.drop_first(), acc + c@),
            ReadEvent::Interrupted => spec_download(events.drop_first(), acc),
        }
    }
}

/// The bytes the chunks of `events` deliver before the first terminal
/// outcome (or before the events run out).
pub open spec fn bytes_until_end(events: Seq<TimedEvent>) -> Seq<u8>
    decreases events.len(),
{
    if events.len() == 0 {
        Seq::empty()
    } else {
        match events[0].event {
            ReadEvent::Eof => Seq::empty(),
            ReadEvent::Failed => Seq::empty(),
            ReadEvent::Chunk(c) => c@ + bytes_until_end(events.drop_first()),
            ReadEvent::Interrupted => bytes_until_end(events.drop_first()),
        }
    }
}

/// Runs a whole transfer over a stream of read events, exactly as the live
/// read loop does: chunks accumulate, interrupted reads are retried without
/// counting progress, the first end-of-stream returns every byte delivered so
/// far in arrival order, and the first hard read error aborts the transfer.
/// Status lines rendered along the way are computed and discarded here; the
/// unverified shell writes them to its status stream instead.
pub fn download_with_progress(events: Vec<TimedEvent>, content_len: Option<usize>) -> (r: Result<
    Vec<u8>,
    DownloadError,
>)
    requires
        spec_download(events@, Seq::empty()) is Some,
        bytes_until_end(events@).len() <= usize::MAX,
    ensures
        spec_download(events@, Seq::empty()) matches Some(Ok(b)) ==> r matches Ok(v) && v@ == b,
        spec_download(events@, Seq::empty()) matches Some(Err(_)) ==> r == Result::<
            Vec<u8>,
            DownloadError,
        >::Err(DownloadError::ReadFailed),
{
    let mut state = TransferState::new(content_len);
    let mut evs = events;
    loop
        invariant
            state.wf(),
            spec_download(evs@, state.data@) == spec_download(events@, Seq::<u8>::empty()),
            spec_download(events@, Seq::<u8>::empty()) is Some,
            state.data@ + bytes_until_end(evs@) == bytes_until_end(events@),
            bytes_until_end(events@).len() <= usize::MAX,
        decreases evs@.len(),
    {
        proof {
            assert(evs@.len() > 0);
        }
        let ghost prev_evs = evs@;
        let ev = evs.remove(0);
        proof {
            assert(evs@ =~= prev_evs.drop_first());
        }
        let ghost gevent = ev.event;
        let ghost old_data = state.data@;
        let TimedEvent { at_ms, event } = ev;
        proof {
            match gevent {
                ReadEvent::Chunk(c) => {
                    assert(bytes_until_end(prev_evs) == c@ + bytes_until_end(evs@));
                    assert(state.data@.len() + c@.len() <= bytes_until_end(events@).len());
                },
                _ => {},
            }
        }
        let action = state.step(event, at_ms);
        match action {
            StepAction::Proceed => {},
            StepAction::Redraw { erase: _, line: _ } => {},
            StepAction::Finished { line: _ } => {
                return Ok(state.data);
            },
            StepAction::Aborted => {
                return Err(DownloadError::ReadFailed);
            },
        }
        proof {
            match gevent {
                ReadEvent::Chunk(c) => {
                    assert(state.data@ == old_data + c@);
                    assert(spec_download(prev_evs, old_data) == spec_download(evs@, old_data + c@));
                    assert(old_data + (c@ + bytes_until_end(evs@)) =~= (old_data + c@)
                        + bytes_until_end(evs@));
                },
                _ => {},
            }
        }
    }
}

} // verus!
