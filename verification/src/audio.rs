//! Playback engine core: the state machine of the playback worker, the
//! command protocol of the controller, and the duration prober's
//! packet-tolerance policy.
//!
//! The worker owns the audio device and the active sink; all mutating
//! operations are applied one at a time, in arrival order.  This module
//! holds that protocol as a verified state machine: each mutating method
//! is pinned to the spec-level transition [`step`], so every law about
//! command sequences is proved once over [`run`] and holds for the
//! executable model.

use vstd::prelude::*;

verus! {

/// Audio player state
#[derive(Debug, Clone, Copy, PartialEq, Eq, Structural)]
pub enum AudioState {
    Stopped,
    Playing,
    Paused,
    Loading,
}

/// Volume is kept in thousandths of full scale: `0` is silent, `1000` is
/// full volume.
pub const VOLUME_FULL: u32 = 1000;

/// The volume a fresh player starts with (seven tenths of full scale).
pub const VOLUME_DEFAULT: u32 = 700;

/// Errors surfaced by the playback controller.
#[derive(Debug, Clone, PartialEq, Eq)]
pub enum AudioError {
    /// The worker is no longer running, so the command channel is closed.
    Disconnected,
    /// Opening, decoding, or binding a file to the output device failed.
    PlaybackFailed(String),
}

/// The worker's complete state, as the mathematical model sees it.
pub struct PlayerView {
    pub state: AudioState,
    pub current_track: Option<Seq<char>>,
    pub volume: int,
    pub sink_active: bool,
    pub alive: bool,
}

/// One command, together with the outcome of the device work it required.
/// For `Play`, `opened` tells whether opening, decoding and binding the
/// file to the device succeeded.
pub enum PlayerEvent {
    Play { path: Seq<char>, opened: bool },
    Pause,
    Resume,
    Stop,
    SetVolume { level: int },
    Shutdown,
}

/// A clamped volume level: the controller clamps every requested level
/// into `[0, VOLUME_FULL]` before it is applied.
pub open spec fn clamped(level: int) -> int {
    if level < 0 {
        0
    } else if level > VOLUME_FULL {
        VOLUME_FULL as int
    } else {
        level
    }
}

/// The state of a player that was just constructed.
pub open spec fn init_view() -> PlayerView {
    PlayerView {
        state: AudioState::Stopped,
        current_track: None,
        volume: VOLUME_DEFAULT as int,
        sink_active: false,
        alive: true,
    }
}

/// The transition the worker makes for one event.  A dead worker (after
/// `Shutdown`) changes nothing.  A new `Play` always releases the prior
/// sink before a new one can exist, so at most one sink is ever active.
pub open spec fn step(v: PlayerView, e: PlayerEvent) -> PlayerView {
    if !v.alive {
        v
    } else {
        match e {
            PlayerEvent::Play { path, opened } => if opened {
                PlayerView {
                    state: AudioState::Playing,
                    current_track: Some(path),
                    sink_active: true,
                    ..v
                }
            } else {
                PlayerView {
                    state: AudioState::Stopped,
                    current_track: None,
                    sink_active: false,
                    ..v
                }
            },
            PlayerEvent::Pause => if v.sink_active {
                PlayerView { state: AudioState::Paused, ..v }
            } else {
                v
            },
            PlayerEvent::Resume => if v.sink_active {
                PlayerView { state: AudioState::Playing, ..v }
            } else {
                v
            },
            PlayerEvent::Stop => PlayerView {
                state: AudioState::Stopped,
                current_track: None,
                sink_active: false,
                ..v
            },
            PlayerEvent::SetVolume { level } => PlayerView { volume: clamped(level), ..v },
            PlayerEvent::Shutdown => PlayerView {
                state: AudioState::Stopped,
                current_track: None,
                sink_active: false,
                alive: false,
                ..v
            },
        }
    }
}

/// The reply the caller receives for one event.
#[derive(PartialEq, Eq, Structural)]
pub enum PlayerReply {
    Accepted,
    Failed,
    Disconnected,
}

/// Which reply one event produces: every mutating call on a dead worker
/// reports disconnection; only a failed `Play` reports failure.
pub open spec fn reply_of(v: PlayerView, e: PlayerEvent) -> PlayerReply {
    if !v.alive {
        PlayerReply::Disconnected
    } else {
        match e {
            PlayerEvent::Play { path, opened } => if opened {
                PlayerReply::Accepted
            } else {
                PlayerReply::Failed
            },
            _ => PlayerReply::Accepted,
        }
    }
}

/// Folding a whole command sequence, first event first.
pub open spec fn run(v: PlayerView, evs: Seq<PlayerEvent>) -> PlayerView
    decreases evs.len(),
{
    if evs.len() == 0 {
        v
    } else {
        run(step(v, evs[0]), evs.skip(1))
    }
}

/// The invariant of every quiescent player state: volume stays clamped,
/// a track is recorded exactly while a sink is active, `Stopped` holds
/// exactly when no sink is active, and `Loading` is never left visible
/// between commands.
pub open spec fn inv(v: PlayerView) -> bool {
    &&& 0 <= v.volume <= VOLUME_FULL
    &&& (v.sink_active <==> v.current_track is Some)
    &&& (v.state == AudioState::Stopped <==> !v.sink_active)
    &&& v.state != AudioState::Loading
    &&& (!v.alive ==> v.state == AudioState::Stopped)
}

/// The verified model of the playback engine.  The executable wrapper
/// around it performs the device work (opening files, creating sinks)
/// and reports each outcome; this model decides every state change and
/// every reply.
pub struct AudioPlayer {
    state: AudioState,
    current_track: Option<String>,
    volume: u32,
    sink_active: bool,
    alive: bool,
}

/// The view of an optional track path.
pub open spec fn track_view(t: Option<String>) -> Option<Seq<char>> {
    match t {
        Some(s) => Some(s@),
        None => None,
    }
}

impl View for AudioPlayer {
    type V = PlayerView;

    closed spec fn view(&self) -> PlayerView {
        PlayerView {
            state: self.state,
            current_track: track_view(self.current_track),
            volume: self.volume as int,
            sink_active: self.sink_active,
            alive: self.alive,
        }
    }
}

impl AudioPlayer {
    /// Create a new audio player
    pub fn new() -> (r: Self)
        ensures
            r@ == init_view(),
            inv(r@),
    {
        AudioPlayer {
            state: AudioState::Stopped,
            current_track: None,
            volume: VOLUME_DEFAULT,
            sink_active: false,
            alive: true,
        }
    }

    /// Play an audio file.  `outcome` reports whether the device work for
    /// this file (open, decode, bind a sink) succeeded, with the failure
    /// message otherwise.  On failure the player reverts to `Stopped`
    /// with no track, whatever state it was in before.
    ///
    /// The brief `Loading` phase is applied by the worker while it
    /// processes the command, not optimistically by the caller; readers
    /// therefore only ever observe quiescent states between commands, at
    /// the price of slightly later feedback.
    pub fn play(&mut self, path: String, outcome: Result<(), String>) -> (r: Result<
        (),
        AudioError,
    >)
        ensures
            final(self)@ == step(
                old(self)@,
                (PlayerEvent::Play { path: path@, opened: outcome is Ok }),
            ),
            !old(self)@.alive ==> r == Err::<(), AudioError>(AudioError::Disconnected),
            old(self)@.alive && outcome is Ok ==> r is Ok,
            old(self)@.alive ==> (forall|m: String|
                outcome == Err::<(), String>(m) ==> r == Err::<(), AudioError>(
                    AudioError::PlaybackFailed(m),
                )),
            old(self)@.alive && outcome is Err ==> final(self)@.state == AudioState::Stopped
                && final(self)@.current_track is None,
    {
        if !self.alive {
            return Err(AudioError::Disconnected);
        }
        // release any prior sink before a new one can exist
        self.sink_active = false;
        self.current_track = None;
        self.state = AudioState::Loading;
        match outcome {
            Ok(()) => {
                self.sink_active = true;
                self.current_track = Some(path);
                self.state = AudioState::Playing;
                Ok(())
            },
            Err(message) => {
                self.state = AudioState::Stopped;
                Err(AudioError::PlaybackFailed(message))
            },
        }
    }

    /// Pause playback.  With no active sink this is a no-op that still
    /// succeeds and leaves the state unchanged.
    pub fn pause(&mut self) -> (r: Result<(), AudioError>)
        ensures
            final(self)@ == step(old(self)@, PlayerEvent::Pause),
            !old(self)@.alive ==> r == Err::<(), AudioError>(AudioError::Disconnected),
            old(self)@.alive ==> r is Ok,
            old(self)@.alive && !old(self)@.sink_active ==> final(self)@ == old(self)@,
    {
        if !self.alive {
            return Err(AudioError::Disconnected);
        }
        if self.sink_active {
            self.state = AudioState::Paused;
        }
        Ok(())
    }

    /// Resume playback.  With no active sink this is a no-op that still
    /// succeeds and leaves the state unchanged.
    pub fn resume(&mut self) -> (r: Result<(), AudioError>)
        ensures
            final(self)@ == step(old(self)@, PlayerEvent::Resume),
            !old(self)@.alive ==> r == Err::<(), AudioError>(AudioError::Disconnected),
            old(self)@.alive ==> r is Ok,
            old(self)@.alive && !old(self)@.sink_active ==> final(self)@ == old(self)@,
    {
        if !self.alive {
            return Err(AudioError::Disconnected);
        }
        if self.sink_active {
            self.state = AudioState::Playing;
        }
        Ok(())
    }

    /// Stop playback: release the sink if one is active and clear the
    /// current track.  Always succeeds; idempotent.
    pub fn stop(&mut self) -> (r: Result<(), AudioError>)
        ensures
            final(self)@ == step(old(self)@, PlayerEvent::Stop),
            !old(self)@.alive ==> r == Err::<(), AudioError>(AudioError::Disconnected),
            old(self)@.alive ==> r is Ok,
    {
        if !self.alive {
            return Err(AudioError::Disconnected);
        }
        self.sink_active = false;
        self.current_track = None;
        self.state = AudioState::Stopped;
        Ok(())
    }

    /// Set the volume, in thousandths of full scale.  The level is
    /// clamped into `[0, VOLUME_FULL]` and always accepted.
    pub fn set_volume(&mut self, level: i64) -> (r: Result<(), AudioError>)
        ensures
            final(self)@ == step(old(self)@, (PlayerEvent::SetVolume { level: level as int })),
            !old(self)@.alive ==> r == Err::<(), AudioError>(AudioError::Disconnected),
            old(self)@.alive ==> r is Ok,
            old(self)@.alive ==> final(self)@.volume == clamped(level as int),
    {
        if !self.alive {
            return Err(AudioError::Disconnected);
        }
        self.volume = if level < 0 {
            0u32
        } else if level > VOLUME_FULL as i64 {
            VOLUME_FULL
        } else {
            level as u32
        };
        Ok(())
    }

    /// Shut the worker down: release everything and stop serving
    /// commands.  Fire-and-forget, so it returns nothing; every mutating
    /// call made afterwards reports disconnection.
    pub fn shutdown(&mut self)
        ensures
            final(self)@ == step(old(self)@, PlayerEvent::Shutdown),
            !final(self)@.alive,
    {
        if self.alive {
            self.sink_active = false;
            self.current_track = None;
            self.state = AudioState::Stopped;
            self.alive = false;
        }
    }

    /// Get current playback state; never blocks, never fails.
    pub fn get_state(&self) -> (r: AudioState)
        ensures
            r == self@.state,
    {
        self.state
    }

    /// Get current volume in thousandths of full scale.
    pub fn get_volume(&self) -> (r: u32)
        ensures
            r as int == self@.volume,
    {
        self.volume
    }

    /// Get current track path.
    pub fn get_current_track(&self) -> (r: Option<String>)
        ensures
            track_view(r) == self@.current_track,
    {
        match &self.current_track {
            Some(s) => Some(s.clone()),
            None => None,
        }
    }

    /// Whether the worker is still serving commands.
    pub fn is_alive(&self) -> (r: bool)
        ensures
            r == self@.alive,
    {
        self.alive
    }
}

// ---------------------------------------------------------------------
// Laws of the state machine.
// ---------------------------------------------------------------------
/// Whether one event ends any playing that was in progress: a stop, a
/// failed play, or a shutdown.
pub open spec fn cancels_playing(e: PlayerEvent) -> bool {
    match e {
        PlayerEvent::Play { path, opened } => !opened,
        PlayerEvent::Stop => true,
        PlayerEvent::Shutdown => true,
        _ => false,
    }
}

/// Whether one event is a play whose device work succeeded.
pub open spec fn is_successful_play(e: PlayerEvent) -> bool {
    e matches PlayerEvent::Play { opened: true, .. }
}

/// One step preserves the player invariant.
pub proof fn lemma_inv_step(v: PlayerView, e: PlayerEvent)
    requires
        inv(v),
    ensures
        inv(step(v, e)),
{
}

/// Any command sequence preserves the player invariant.
pub proof fn lemma_inv_run(v: PlayerView, evs: Seq<PlayerEvent>)
    requires
        inv(v),
    ensures
        inv(run(v, evs)),
    decreases evs.len(),
{
    if evs.len() > 0 {
        lemma_inv_step(v, evs[0]);
        lemma_inv_run(step(v, evs[0]), evs.skip(1));
    }
}

/// Processing a sequence and then one more event is one more step.
pub proof fn lemma_run_snoc(v: PlayerView, evs: Seq<PlayerEvent>, e: PlayerEvent)
    ensures
        run(v, evs.push(e)) == step(run(v, evs), e),
    decreases evs.len(),
{
    if evs.len() == 0 {
        let s = evs.push(e);
        assert(s[0] == e);
        assert(s.skip(1) =~= Seq::<PlayerEvent>::empty());
        assert(run(v, s) == run(step(v, e), s.skip(1)));
        assert(run(step(v, e), s.skip(1)) == step(v, e));
    } else {
        assert(evs.push(e)[0] == evs[0]);
        assert(evs.push(e).skip(1) =~= evs.skip(1).push(e));
        lemma_run_snoc(step(v, evs[0]), evs.skip(1), e);
    }
}

/// Commands are applied one at a time in arrival order: running two
/// batches in sequence is the same as running their concatenation, so
/// every caller observes the one total order in which the worker
/// dequeued the commands.
pub proof fn lemma_run_append(v: PlayerView, a: Seq<PlayerEvent>, b: Seq<PlayerEvent>)
    ensures
        run(v, a + b) == run(run(v, a), b),
    decreases a.len(),
{
    if a.len() == 0 {
        assert(a + b =~= b);
    } else {
        assert((a + b)[0] == a[0]);
        assert((a + b).skip(1) =~= a.skip(1) + b);
        lemma_run_append(step(v, a[0]), a.skip(1), b);
    }
}

/// A worker that has shut down never changes again.
pub proof fn lemma_dead_stays(v: PlayerView, evs: Seq<PlayerEvent>)
    requires
        !v.alive,
    ensures
        run(v, evs) == v,
    decreases evs.len(),
{
    if evs.len() > 0 {
        lemma_dead_stays(v, evs.skip(1));
    }
}

/// After a `Shutdown`, any later mutating command leaves the state
/// unchanged and is answered with a disconnection reply, never served.
pub proof fn lemma_shutdown_disconnects(v: PlayerView, evs: Seq<PlayerEvent>, i: int)
    requires
        !v.alive,
        0 <= i < evs.len(),
    ensures
        run(v, evs) == v,
        reply_of(run(v, evs.take(i)), evs[i]) == PlayerReply::Disconnected,
{
    lemma_dead_stays(v, evs);
    lemma_dead_stays(v, evs.take(i));
}

/// A dead player reached from the initial state is always `Stopped`.
pub proof fn lemma_dead_is_stopped(evs: Seq<PlayerEvent>)
    ensures
        !run(init_view(), evs).alive ==> run(init_view(), evs).state == AudioState::Stopped,
{
    lemma_inv_run(init_view(), evs);
}

/// A sink is active only because some prior `Play` succeeded and no
/// stop, failed play, or shutdown has occurred since.
proof fn lemma_active_sink_has_cause(evs: Seq<PlayerEvent>)
    ensures
        run(init_view(), evs).sink_active ==> exists|i: int|
            0 <= i < evs.len() && is_successful_play(evs[i]) && (forall|j: int|
                i < j < evs.len() ==> !cancels_playing(evs[j])),
    decreases evs.len(),
{
    if run(init_view(), evs).sink_active {
        if evs.len() == 0 {
        } else {
            let prefix = evs.take(evs.len() - 1);
            let e = evs[evs.len() - 1];
            assert(evs =~= prefix.push(e));
            lemma_run_snoc(init_view(), prefix, e);
            let v = run(init_view(), prefix);
            lemma_inv_run(init_view(), prefix);
            if v.alive && is_successful_play(e) {
                assert(0 <= prefix.len() < evs.len() && is_successful_play(
                    evs[prefix.len() as int],
                ) && (forall|j: int| prefix.len() < j < evs.len() ==> !cancels_playing(evs[j])));
            } else {
                // the last event kept the sink active without being a
                // successful play, so the sink was already active before
                assert(v.sink_active);
                assert(!cancels_playing(e));
                lemma_active_sink_has_cause(prefix);
                let i = choose|i: int|
                    0 <= i < prefix.len() && is_successful_play(prefix[i]) && (forall|j: int|
                        i < j < prefix.len() ==> !cancels_playing(prefix[j]));
                assert(forall|j: int| i < j < evs.len() - 1 ==> !cancels_playing(evs[j]));
                assert(0 <= i < evs.len() && is_successful_play(evs[i]) && (forall|j: int|
                    i < j < evs.len() ==> !cancels_playing(evs[j])));
            }
        }
    }
}

/// The player is `Playing` only because some prior `Play` succeeded and
/// no stop, failed play, or shutdown has occurred since; and it is
/// `Stopped` exactly when no track is current.
pub proof fn lemma_playing_has_cause(evs: Seq<PlayerEvent>)
    ensures
        run(init_view(), evs).state == AudioState::Playing ==> exists|i: int|
            0 <= i < evs.len() && is_successful_play(evs[i]) && (forall|j: int|
                i < j < evs.len() ==> !cancels_playing(evs[j])),
        run(init_view(), evs).state == AudioState::Stopped <==> run(
            init_view(),
            evs,
        ).current_track is None,
{
    lemma_inv_run(init_view(), evs);
    lemma_active_sink_has_cause(evs);
}

/// A play immediately followed by another play leaves the second track
/// current with exactly one active sink: the model keeps a single sink
/// slot, and `step` releases whatever sink exists before a new play can
/// create one, so nothing leaks from the first track.
pub proof fn lemma_play_then_play(v: PlayerView, a: Seq<char>, b: Seq<char>)
    requires
        v.alive,
    ensures
        ({
            let v2 = step(
                step(v, PlayerEvent::Play { path: a, opened: true }),
                PlayerEvent::Play { path: b, opened: true },
            );
            v2.current_track == Some(b) && v2.sink_active && v2.state == AudioState::Playing
        }),
{
}

// ---------------------------------------------------------------------
// Duration prober: packet-tolerance policy.
// ---------------------------------------------------------------------
/// One outcome the decode loop can observe while reading packets.
#[derive(Debug, Clone, PartialEq, Eq, Structural)]
pub enum PacketEvent {
    /// A packet of the selected track decoded into this many frames.
    Frames { count: u64 },
    /// The packet belongs to a different track.
    OtherTrack,
    /// The packet could not be decoded; individual corrupt packets are
    /// skipped rather than aborting the probe.
    CorruptPacket,
    /// The decoder asked to be rebuilt before decoding can go on.
    NeedsReset,
    /// An I/O error, treated as the end of the stream.
    EndOfStream,
    /// Any other error: the probe gives up on counting frames.
    Fatal,
}

/// What the decode loop must do after one packet outcome.
#[derive(Debug, Clone, Copy, PartialEq, Eq, Structural)]
pub enum ProbeAction {
    /// Read the next packet.
    Proceed,
    /// Rebuild the decoder, then read the next packet.
    Rebuild,
    /// Stop reading and report the frames counted so far.
    Finish,
    /// Stop reading; no frame count could be determined.
    Abort,
}

/// Frame counts accumulate without overflow: the sum saturates.
pub open spec fn add_saturating(total: u64, count: u64) -> u64 {
    if total + count > u64::MAX {
        u64::MAX
    } else {
        (total + count) as u64
    }
}

/// The new running total and the next action, for one packet outcome.
pub open spec fn probe_step_spec(total: u64, ev: PacketEvent) -> (u64, ProbeAction) {
    match ev {
        PacketEvent::Frames { count } => (add_saturating(total, count), ProbeAction::Proceed),
        PacketEvent::OtherTrack => (total, ProbeAction::Proceed),
        PacketEvent::CorruptPacket => (total, ProbeAction::Proceed),
        PacketEvent::NeedsReset => (total, ProbeAction::Rebuild),
        PacketEvent::EndOfStream => (total, ProbeAction::Finish),
        PacketEvent::Fatal => (total, ProbeAction::Abort),
    }
}

/// Apply the prober's tolerance policy to one packet outcome: corrupt
/// packets are skipped, a reset request rebuilds the decoder rather than
/// aborting, an I/O error ends the stream, and decoded frames accumulate
/// (saturating, never overflowing).
pub fn probe_step(total: u64, ev: &PacketEvent) -> (r: (u64, ProbeAction))
    ensures
        r == probe_step_spec(total, *ev),
{
    match ev {
        PacketEvent::Frames { count } => {
            let new_total = if total > u64::MAX - *count {
                u64::MAX
            } else {
                total + *count
            };
            (new_total, ProbeAction::Proceed)
        },
        PacketEvent::OtherTrack => (total, ProbeAction::Proceed),
        PacketEvent::CorruptPacket => (total, ProbeAction::Proceed),
        PacketEvent::NeedsReset => (total, ProbeAction::Rebuild),
        PacketEvent::EndOfStream => (total, ProbeAction::Finish),
        PacketEvent::Fatal => (total, ProbeAction::Abort),
    }
}

/// The total frames counted after a whole sequence of packet outcomes,
/// honouring the first outcome that ends the probe.
pub open spec fn tally_spec(total: u64, evs: Seq<PacketEvent>) -> (u64, ProbeAction)
    decreases evs.len(),
{
    if evs.len() == 0 {
        (total, ProbeAction::Proceed)
    } else {
        let (t, a) = probe_step_spec(total, evs[0]);
        if a == ProbeAction::Finish || a == ProbeAction::Abort {
            (t, a)
        } else {
            tally_spec(t, evs.skip(1))
        }
    }
}

/// Fold a recorded sequence of packet outcomes through the tolerance
/// policy: the frame total and how the probe ended.
pub fn tally_packets(evs: &Vec<PacketEvent>) -> (r: (u64, ProbeAction))
    ensures
        r == tally_spec(0, evs@),
{
    let mut total: u64 = 0;
    let mut idx: usize = 0;
    proof {
        assert(evs@.skip(0) =~= evs@);
    }
    loop
        invariant
            0 <= idx <= evs@.len(),
            tally_spec(0, evs@) == tally_spec(total, evs@.skip(idx as int)),
        decreases evs@.len() - idx,
    {
        if idx == evs.len() {
            return (total, ProbeAction::Proceed);
        }
        let (t, a) = probe_step(total, &evs[idx]);
        proof {
            assert(evs@.skip(idx as int)[0] == evs@[idx as int]);
            assert(evs@.skip(idx as int).skip(1) =~= evs@.skip(idx as int + 1));
        }
        match a {
            ProbeAction::Finish => {
                return (t, ProbeAction::Finish);
            },
            ProbeAction::Abort => {
                return (t, ProbeAction::Abort);
            },
            _ => {
                total = t;
                idx = idx + 1;
            },
        }
    }
}

/// Duration in whole seconds of `n_frames` frames at `sample_rate`
/// frames per second.
pub fn duration_seconds(n_frames: u64, sample_rate: u32) -> (r: u64)
    requires
        sample_rate > 0,
    ensures
        r == n_frames as int / sample_rate as int,
{
    n_frames / (sample_rate as u64)
}

/// The duration the prober reports once the frame total is known: a
/// best-effort figure that defaults to zero when nothing could be
/// determined (no sample rate, or no frames counted).
pub fn probe_outcome_seconds(total_frames: u64, sample_rate: Option<u32>) -> (r: u64)
    ensures
        match sample_rate {
            Some(rate) => (rate > 0 && total_frames > 0) ==> r == total_frames as int / rate as int,
            None => r == 0,
        },
        sample_rate is None ==> r == 0,
        total_frames == 0 ==> r == 0,
{
    match sample_rate {
        Some(rate) => {
            if rate > 0 && total_frames > 0 {
                duration_seconds(total_frames, rate)
            } else {
                0
            }
        },
        None => 0,
    }
}


// ---------------------------------------------------------------------
// Supported formats.
// ---------------------------------------------------------------------
/// Whether a lowercased extension names a format the playback engine
/// accepts.
pub open spec fn supported_playback_ext(e: Seq<char>) -> bool {
    ||| e == "mp3"@
    ||| e == "flac"@
    ||| e == "ogg"@
    ||| e == "wav"@
    ||| e == "m4a"@
    ||| e == "aac"@
}

/// Check if a file is a supported audio format
pub fn is_supported_audio_format(file_path: &str) -> (r: bool)
    ensures
        r == match crate::utils::lower_extension_spec(file_path@) {
            Some(e) => supported_playback_ext(e),
            None => false,
        },
{
    match crate::utils::get_file_extension(file_path) {
        Some(ext) => {
            let ev = crate::text::str_chars(ext.as_str());
            crate::text::chars_eq_str(&ev, "mp3") || crate::text::chars_eq_str(&ev, "flac")
                || crate::text::chars_eq_str(&ev, "ogg") || crate::text::chars_eq_str(&ev, "wav")
                || crate::text::chars_eq_str(&ev, "m4a") || crate::text::chars_eq_str(&ev, "aac")
        },
        None => false,
    }
}



} // verus!
