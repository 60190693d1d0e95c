use vstd::prelude::*;
use vstd::view::View as _;
use crate::engine::AudioCmd;
use crate::types::{AppEvent, TrackInfo};

verus! {

/// Whether the player is idle, playing or paused.
#[derive(Clone, Copy, Debug, PartialEq, Eq, Structural)]
pub enum PlayerState {
    Idle,
    Playing,
    Paused,
}

/// A notification for the player's host.
#[derive(Clone, Copy, Debug, PartialEq, Eq, Structural)]
pub enum PlayerEvent {
    StateChanged(PlayerState),
    ScanProgress { current: usize, total: usize },
    ScanFinished,
}

/// The abstract state of a player: its state, the index of its track, and the
/// notifications not yet taken, oldest first.
pub struct PlayerModel {
    pub state: PlayerState,
    pub track: Option<usize>,
    pub pending: Seq<PlayerEvent>,
}

/// A player is idle exactly when it has no current track.
pub open spec fn model_wf(m: PlayerModel) -> bool {
    (m.state == PlayerState::Idle) == (m.track is None)
}

pub open spec fn model_new() -> PlayerModel {
    PlayerModel { state: PlayerState::Idle, track: None, pending: Seq::empty() }
}

/// Playing the track at `idx` of a list of `n` tracks (`n > 0`): the index
/// wraps around the list.
pub open spec fn model_play(m: PlayerModel, n: nat, idx: nat) -> PlayerModel {
    PlayerModel {
        state: PlayerState::Playing,
        track: Some((idx % n) as usize),
        pending: m.pending.push(PlayerEvent::StateChanged(PlayerState::Playing)),
    }
}

pub open spec fn model_stop(m: PlayerModel) -> PlayerModel {
    PlayerModel {
        state: PlayerState::Idle,
        track: None,
        pending: m.pending.push(PlayerEvent::StateChanged(PlayerState::Idle)),
    }
}

/// Pausing acts only on a playing player.
pub open spec fn model_pause(m: PlayerModel) -> PlayerModel {
    if m.state == PlayerState::Playing {
        PlayerModel {
            state: PlayerState::Paused,
            pending: m.pending.push(PlayerEvent::StateChanged(PlayerState::Paused)),
            ..m
        }
    } else {
        m
    }
}

/// Resuming acts only on a paused player.
pub open spec fn model_resume(m: PlayerModel) -> PlayerModel {
    if m.state == PlayerState::Paused {
        PlayerModel {
            state: PlayerState::Playing,
            pending: m.pending.push(PlayerEvent::StateChanged(PlayerState::Playing)),
            ..m
        }
    } else {
        m
    }
}

/// The notification that a library scan event becomes, if any.
pub open spec fn scan_notice(evt: AppEvent) -> Option<PlayerEvent> {
    match evt {
        AppEvent::ScanProgress { current, total } => Some(PlayerEvent::ScanProgress { current, total }),
        AppEvent::ScanFinished => Some(PlayerEvent::ScanFinished),
        _ => None,
    }
}

/// The player after a library scan event is posted to it.
pub open spec fn model_post(m: PlayerModel, evt: AppEvent) -> PlayerModel {
    match scan_notice(evt) {
        Some(e) => PlayerModel { pending: m.pending.push(e), ..m },
        None => m,
    }
}

/// The player after the scan events `evts` are posted to it in turn.
pub open spec fn model_post_all(m: PlayerModel, evts: Seq<AppEvent>) -> PlayerModel
    decreases evts.len(),
{
    if evts.len() == 0 {
        m
    } else {
        model_post(model_post_all(m, evts.drop_last()), evts.last())
    }
}

/// The notifications that the events `evts` become, in order.
pub open spec fn scan_notices(evts: Seq<AppEvent>) -> Seq<PlayerEvent>
    decreases evts.len(),
{
    if evts.len() == 0 {
        Seq::empty()
    } else {
        let prev = scan_notices(evts.drop_last());
        match scan_notice(evts.last()) {
            Some(e) => prev.push(e),
            None => prev,
        }
    }
}

/// The player after its oldest notification is taken.
pub open spec fn model_take(m: PlayerModel) -> PlayerModel {
    if m.pending.len() > 0 {
        PlayerModel { pending: m.pending.drop_first(), ..m }
    } else {
        m
    }
}

/// The notifications that `n` calls of `try_recv_event` return, in order.
pub open spec fn taken(m: PlayerModel, n: nat) -> Seq<PlayerEvent>
    decreases n,
{
    if n == 0 || m.pending.len() == 0 {
        Seq::empty()
    } else {
        seq![m.pending[0]].add(taken(model_take(m), (n - 1) as nat))
    }
}

/// The decisions of the embeddable player: which track plays, whether it is
/// paused, and the notifications for the host. The host performs the audio
/// commands that the methods return.
pub struct PlayerCore {
    state: PlayerState,
    current_track_idx: Option<usize>,
    events: Vec<PlayerEvent>,
}

impl PlayerCore {
    pub closed spec fn model(&self) -> PlayerModel {
        PlayerModel { state: self.state, track: self.current_track_idx, pending: self.events@ }
    }

    /// The player's internal invariant: idle exactly when it has no track.
    pub open spec fn wf(&self) -> bool {
        model_wf(self.model())
    }

    /// Every player keeps its invariant.
    #[verifier::type_invariant]
    spec fn idle_without_track(self) -> bool {
        (self.state == PlayerState::Idle) == (self.current_track_idx is None)
    }

    pub fn new() -> (r: Self)
        ensures
            r.model() == model_new(),
            r.wf(),
    {
        PlayerCore { state: PlayerState::Idle, current_track_idx: None, events: Vec::new() }
    }

    /// Plays the track at `idx` of `tracks`, wrapping the index around the
    /// list; refused while the list is empty. On success the command for the
    /// engine is returned.
    pub fn play_track_at(&mut self, tracks: &Vec<TrackInfo>, idx: usize) -> (r: Result<AudioCmd, &'static str>)
        ensures
            final(self).wf(),
            tracks@.len() == 0 ==> (r matches Err(e) && e@ == "local music library is empty"@
                && final(self).model() == old(self).model()),
            tracks@.len() > 0 ==> (r matches Ok(AudioCmd::Play(p))
                && p@ == tracks@[idx as int % tracks@.len() as int].path@
                && final(self).model() == model_play(old(self).model(), tracks@.len(), idx as nat)),
    {
        proof {
            use_type_invariant(&*self);
        }
        if tracks.len() == 0 {
            return Err("local music library is empty");
        }
        let safe_idx = idx % tracks.len();
        let path = tracks[safe_idx].path.clone();
        let mut events: Vec<PlayerEvent> = Vec::new();
        std::mem::swap(&mut events, &mut self.events);
        events.push(PlayerEvent::StateChanged(PlayerState::Playing));
        *self = PlayerCore { state: PlayerState::Playing, current_track_idx: Some(safe_idx), events };
        Ok(AudioCmd::Play(path))
    }

    /// Stops playback; the engine is told to stop.
    pub fn stop(&mut self) -> (r: AudioCmd)
        ensures
            r is Stop,
            final(self).wf(),
            final(self).model() == model_stop(old(self).model()),
    {
        proof {
            use_type_invariant(&*self);
        }
        let mut events: Vec<PlayerEvent> = Vec::new();
        std::mem::swap(&mut events, &mut self.events);
        events.push(PlayerEvent::StateChanged(PlayerState::Idle));
        *self = PlayerCore { state: PlayerState::Idle, current_track_idx: None, events };
        AudioCmd::Stop
    }

    /// Pauses a playing player; returns whether the engine must pause.
    pub fn pause(&mut self) -> (r: bool)
        ensures
            r == (old(self).model().state == PlayerState::Playing),
            final(self).wf(),
            final(self).model() == model_pause(old(self).model()),
    {
        proof {
            use_type_invariant(&*self);
        }
        if self.state == PlayerState::Playing {
            self.state = PlayerState::Paused;
            let mut events: Vec<PlayerEvent> = Vec::new();
            std::mem::swap(&mut events, &mut self.events);
            events.push(PlayerEvent::StateChanged(PlayerState::Paused));
            self.events = events;
            true
        } else {
            false
        }
    }

    /// Resumes a paused player; returns whether the engine must resume.
    pub fn resume(&mut self) -> (r: bool)
        ensures
            r == (old(self).model().state == PlayerState::Paused),
            final(self).wf(),
            final(self).model() == model_resume(old(self).model()),
    {
        proof {
            use_type_invariant(&*self);
        }
        if self.state == PlayerState::Paused {
            self.state = PlayerState::Playing;
            let mut events: Vec<PlayerEvent> = Vec::new();
            std::mem::swap(&mut events, &mut self.events);
            events.push(PlayerEvent::StateChanged(PlayerState::Playing));
            self.events = events;
            true
        } else {
            false
        }
    }

    pub fn state(&self) -> (r: PlayerState)
        ensures
            r == self.model().state,
    {
        self.state
    }

    pub fn current_track_index(&self) -> (r: Option<usize>)
        ensures
            r == self.model().track,
    {
        self.current_track_idx
    }

    /// Queues a notification for the host.
    fn notify(&mut self, e: PlayerEvent)
        ensures
            final(self).model() == (PlayerModel { pending: old(self).model().pending.push(e), ..old(self).model() }),
    {
        proof {
            use_type_invariant(&*self);
        }
        let mut events: Vec<PlayerEvent> = Vec::new();
        std::mem::swap(&mut events, &mut self.events);
        events.push(e);
        self.events = events;
    }

    /// Takes the oldest pending notification.
    pub fn try_recv_event(&mut self) -> (r: Option<PlayerEvent>)
        ensures
            final(self).wf(),
            old(self).model().pending.len() == 0 ==> r is None && final(self).model() == old(self).model(),
            old(self).model().pending.len() > 0 ==> r == Some(old(self).model().pending[0])
                && final(self).model() == (PlayerModel { pending: old(self).model().pending.drop_first(), ..old(self).model() }),
            final(self).model() == model_take(old(self).model()),
    {
        proof {
            use_type_invariant(&*self);
        }
        if self.events.len() == 0 {
            None
        } else {
            let mut events: Vec<PlayerEvent> = Vec::new();
            std::mem::swap(&mut events, &mut self.events);
            let e = events.remove(0);
            self.events = events;
            proof {
                assert(self.events@ =~= old(self).events@.drop_first());
            }
            Some(e)
        }
    }

    /// Records a library scan event as a notification; returns whether the
    /// scan has finished.
    pub fn post_scan_event(&mut self, evt: &AppEvent) -> (r: bool)
        ensures
            final(self).wf(),
            r == (*evt is ScanFinished),
            final(self).model() == model_post(old(self).model(), *evt),
    {
        proof {
            use_type_invariant(&*self);
        }
        match evt {
            AppEvent::ScanProgress { current, total } => {
                self.notify(PlayerEvent::ScanProgress { current: *current, total: *total });
                false
            },
            AppEvent::ScanFinished => {
                self.notify(PlayerEvent::ScanFinished);
                true
            },
            _ => false,
        }
    }
}

proof fn lemma_post_all(m: PlayerModel, evts: Seq<AppEvent>)
    ensures
        model_post_all(m, evts).state == m.state,
        model_post_all(m, evts).track == m.track,
        model_post_all(m, evts).pending == m.pending + scan_notices(evts),
    decreases evts.len(),
{
    if evts.len() > 0 {
        lemma_post_all(m, evts.drop_last());
        let prev = model_post_all(m, evts.drop_last());
        match scan_notice(evts.last()) {
            Some(e) => {
                assert(prev.pending.push(e) =~= m.pending + scan_notices(evts.drop_last()).push(e));
            },
            None => {},
        }
    }
}

proof fn lemma_notices_progress(evts: Seq<AppEvent>)
    requires
        forall|i: int| 0 <= i < evts.len() ==> !(#[trigger] evts[i] is ScanFinished),
    ensures
        forall|k: int| 0 <= k < scan_notices(evts).len() ==> #[trigger] scan_notices(evts)[k] is ScanProgress,
    decreases evts.len(),
{
    if evts.len() > 0 {
        let p = evts.drop_last();
        assert forall|i: int| 0 <= i < p.len() implies !(#[trigger] p[i] is ScanFinished) by {
            assert(p[i] == evts[i]);
        }
        lemma_notices_progress(p);
        assert(!(evts[evts.len() - 1] is ScanFinished));
    }
}

/// Notifications are taken oldest first: `n` calls of `try_recv_event`
/// return the first `n` pending ones.
pub proof fn law_notifications_in_order(m: PlayerModel, n: nat)
    requires
        n <= m.pending.len(),
    ensures
        taken(m, n) == m.pending.take(n as int),
    decreases n,
{
    if n > 0 {
        law_notifications_in_order(model_take(m), (n - 1) as nat);
        assert(taken(m, n) =~= m.pending.take(n as int));
    }
}

/// Over a whole library scan, whose events end with the one "finished":
/// posting them leaves the player's state and track alone and queues, in
/// order, one progress notification for each progress event, then exactly
/// one "finished", which is the last; taking the notifications returns them
/// in that order.
pub proof fn law_scan_forwarded(m: PlayerModel, evts: Seq<AppEvent>)
    requires
        evts.len() > 0,
        evts.last() is ScanFinished,
        forall|i: int| 0 <= i < evts.len() - 1 ==> !(#[trigger] evts[i] is ScanFinished),
    ensures
        model_post_all(m, evts).state == m.state,
        model_post_all(m, evts).track == m.track,
        model_post_all(m, evts).pending == m.pending + scan_notices(evts),
        scan_notices(evts).len() > 0,
        scan_notices(evts).last() == PlayerEvent::ScanFinished,
        forall|k: int| 0 <= k < scan_notices(evts).len() - 1 ==> #[trigger] scan_notices(evts)[k] is ScanProgress,
        taken(model_post_all(m, evts), (m.pending.len() + scan_notices(evts).len()) as nat)
            == m.pending + scan_notices(evts),
{
    lemma_post_all(m, evts);
    let p = evts.drop_last();
    assert forall|i: int| 0 <= i < p.len() implies !(#[trigger] p[i] is ScanFinished) by {
        assert(p[i] == evts[i]);
    }
    lemma_notices_progress(p);
    assert(scan_notices(evts) == scan_notices(p).push(PlayerEvent::ScanFinished));
    assert forall|k: int| 0 <= k < scan_notices(evts).len() - 1 implies #[trigger] scan_notices(evts)[k] is ScanProgress by {
        assert(scan_notices(evts)[k] == scan_notices(p)[k]);
    }
    let q = model_post_all(m, evts);
    law_notifications_in_order(q, q.pending.len());
    assert(q.pending.take(q.pending.len() as int) =~= q.pending);
}

/// Pausing a playing player and resuming it gives back its state and track,
/// with one notification for each change.
pub proof fn law_resume_undoes_pause(m: PlayerModel)
    requires
        m.state == PlayerState::Playing,
    ensures
        model_resume(model_pause(m)).state == m.state,
        model_resume(model_pause(m)).track == m.track,
        model_resume(model_pause(m)).pending == m.pending.push(
            PlayerEvent::StateChanged(PlayerState::Paused),
        ).push(PlayerEvent::StateChanged(PlayerState::Playing)),
{
}

/// Pausing twice is pausing once, and resuming twice is resuming once.
pub proof fn law_pause_resume_idempotent(m: PlayerModel)
    ensures
        model_pause(model_pause(m)) == model_pause(m),
        model_resume(model_resume(m)) == model_resume(m),
{
}

/// Every transition keeps a player well formed, and a track that starts
/// playing lies inside the list it was chosen from.
pub proof fn law_transitions_keep_wf(m: PlayerModel, n: nat, idx: nat)
    requires
        model_wf(m),
        n > 0,
    ensures
        model_wf(model_new()),
        model_wf(model_play(m, n, idx)),
        model_play(m, n, idx).track matches Some(t) && t < n,
        model_wf(model_stop(m)),
        model_wf(model_pause(m)),
        model_wf(model_resume(m)),
{
}

} // verus!

verus! {

/// The number by which the C interface reports a state: 0 idle, 1 playing, 2 paused.
pub open spec fn state_code_spec(s: PlayerState) -> i32 {
    match s {
        PlayerState::Idle => 0,
        PlayerState::Playing => 1,
        PlayerState::Paused => 2,
    }
}

pub fn state_code(s: PlayerState) -> (r: i32)
    ensures
        r == state_code_spec(s),
{
    match s {
        PlayerState::Idle => 0,
        PlayerState::Playing => 1,
        PlayerState::Paused => 2,
    }
}

} // verus!
