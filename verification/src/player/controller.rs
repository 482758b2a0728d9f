//! Decision core of the audio controller: play / pause intent, capped reconnection with
//! a generation guard, and the published (health, label) pair. The audio pipeline and
//! its timers live with the caller, who performs the returned [`Effects`] and reports
//! back what the pipeline does.
use vstd::prelude::*;

use super::playback_text;
use super::{is_offline_attempt, reconnect_delay, reconnect_step, reconnecting_indicators, StreamHealth};

verus! {

/// What the pipeline is asked to do.
#[derive(Debug, Clone, Copy, PartialEq, Eq, Structural)]
pub enum PipelineCommand {
    /// Go to the playing state.
    Play,
    /// Go to the paused state.
    Pause,
    /// Build a fresh stream (null state, same URI, then playing).
    Restart,
}

/// A reconnection to schedule: wait `delay_secs`, then report
/// [`PlayerController::on_reconnect_due`] with `generation`.
#[derive(Debug, Clone, Copy, PartialEq, Eq, Structural)]
pub struct ReconnectTimer {
    pub delay_secs: u32,
    pub generation: u64,
}

/// Side effects requested by one decision, to be performed in this order: cancel the
/// pending reconnection timer, send the pipeline command, schedule the new timer, then
/// refresh whoever displays the state.
#[derive(Debug, Clone, Copy, PartialEq, Eq, Structural)]
pub struct Effects {
    pub cancel_timer: bool,
    pub pipeline: Option<PipelineCommand>,
    pub schedule: Option<ReconnectTimer>,
    pub notify: bool,
}

/// Nothing to do.
pub open spec fn no_effects() -> Effects {
    Effects { cancel_timer: false, pipeline: None, schedule: None, notify: false }
}

/// State of the controller.
#[derive(Debug, Clone, Copy, PartialEq, Eq)]
pub struct PlayerController {
    /// The listener's intent (not the actual stream state).
    pub is_playing: bool,
    /// Last published stream health.
    pub health: StreamHealth,
    /// Last published state label.
    pub text: &'static str,
    /// Number of the reconnection attempt in progress (0 = nominal).
    pub reconnect_attempts: u32,
    /// Bumped on every play / pause so that a reconnection scheduled before becomes stale.
    pub generation: u64,
    /// Whether a reconnection timer is pending.
    pub reconnect_pending: bool,
}

impl PlayerController {
    /// Freshly built controller: not playing, ready.
    pub open spec fn initial() -> Self {
        PlayerController {
            is_playing: false,
            health: StreamHealth::Active,
            text: playback_text::READY,
            reconnect_attempts: 0,
            generation: 0,
            reconnect_pending: false,
        }
    }

    /// The generation after an invalidation (wrapping increment).
    pub open spec fn next_generation(g: u64) -> u64 {
        if g == u64::MAX { 0 } else { (g + 1) as u64 }
    }

    /// State after `play`.
    pub open spec fn after_play(self) -> Self {
        PlayerController {
            is_playing: true,
            health: StreamHealth::Connecting,
            text: playback_text::CONNECTING,
            reconnect_attempts: 0,
            generation: Self::next_generation(self.generation),
            reconnect_pending: false,
        }
    }

    /// State after `pause`.
    pub open spec fn after_pause(self) -> Self {
        PlayerController {
            is_playing: false,
            health: StreamHealth::Active,
            text: playback_text::PAUSED,
            reconnect_attempts: self.reconnect_attempts,
            generation: Self::next_generation(self.generation),
            reconnect_pending: false,
        }
    }

    /// Whether a lost stream leads to a new reconnection attempt: only while the
    /// listener wants to listen and no reconnection is already pending.
    pub open spec fn reconnects_on_loss(self) -> bool {
        self.is_playing && !self.reconnect_pending
    }

    /// Number of the next attempt (saturating at the top of `u32`).
    pub open spec fn next_attempt(self) -> u32 {
        if self.reconnect_attempts == u32::MAX {
            u32::MAX
        } else {
            (self.reconnect_attempts + 1) as u32
        }
    }

    /// State after the stream was lost (error or end of stream).
    pub open spec fn after_stream_lost(self) -> Self {
        if self.reconnects_on_loss() {
            let attempt = self.next_attempt();
            PlayerController {
                is_playing: self.is_playing,
                health: if is_offline_attempt(attempt) {
                    StreamHealth::Failed
                } else {
                    StreamHealth::Connecting
                },
                text: if is_offline_attempt(attempt) {
                    playback_text::OFFLINE
                } else {
                    playback_text::RECONNECTING
                },
                reconnect_attempts: attempt,
                generation: self.generation,
                reconnect_pending: true,
            }
        } else {
            self
        }
    }

    /// Whether a reconnection timer of `generation` restarts the stream when it fires.
    pub open spec fn restarts_on_due(self, generation: u64) -> bool {
        generation == self.generation && self.is_playing
    }

    /// State once the pipeline reports that it actually plays.
    pub open spec fn after_pipeline_playing(self) -> Self {
        if self.is_playing {
            PlayerController {
                health: StreamHealth::Active,
                text: playback_text::PLAYING,
                reconnect_attempts: 0,
                ..self
            }
        } else {
            self
        }
    }

    /// A new controller, ready and not playing.
    pub fn new() -> (r: Self)
        ensures
            r == Self::initial(),
    {
        PlayerController {
            is_playing: false,
            health: StreamHealth::Active,
            text: playback_text::READY,
            reconnect_attempts: 0,
            generation: 0,
            reconnect_pending: false,
        }
    }

    /// (Re)starts playback: any pending reconnection is cancelled and made stale, the
    /// attempt counter restarts from zero, and « Connexion au direct… » is shown.
    pub fn play(&mut self) -> (e: Effects)
        ensures
            *final(self) == old(self).after_play(),
            e == (Effects {
                cancel_timer: true,
                pipeline: Some(PipelineCommand::Play),
                schedule: None,
                notify: true,
            }),
    {
        self.generation = self.generation.wrapping_add(1);
        self.reconnect_pending = false;
        self.reconnect_attempts = 0;
        self.is_playing = true;
        self.health = StreamHealth::Connecting;
        self.text = playback_text::CONNECTING;
        Effects {
            cancel_timer: true,
            pipeline: Some(PipelineCommand::Play),
            schedule: None,
            notify: true,
        }
    }

    /// Pauses: drops the listening intent and any pending reconnection.
    pub fn pause(&mut self) -> (e: Effects)
        ensures
            *final(self) == old(self).after_pause(),
            e == (Effects {
                cancel_timer: true,
                pipeline: Some(PipelineCommand::Pause),
                schedule: None,
                notify: true,
            }),
    {
        self.generation = self.generation.wrapping_add(1);
        self.reconnect_pending = false;
        self.is_playing = false;
        self.health = StreamHealth::Active;
        self.text = playback_text::PAUSED;
        Effects {
            cancel_timer: true,
            pipeline: Some(PipelineCommand::Pause),
            schedule: None,
            notify: true,
        }
    }

    /// Pauses when playing, plays otherwise.
    pub fn toggle(&mut self) -> (e: Effects)
        ensures
            old(self).is_playing ==> *final(self) == old(self).after_pause()
                && e.pipeline == Some(PipelineCommand::Pause),
            !old(self).is_playing ==> *final(self) == old(self).after_play()
                && e.pipeline == Some(PipelineCommand::Play),
            e.cancel_timer && e.notify && e.schedule.is_none(),
    {
        if self.is_playing {
            self.pause()
        } else {
            self.play()
        }
    }

    /// The listener's intent.
    pub fn is_playing(&self) -> (r: bool)
        ensures
            r == self.is_playing,
    {
        self.is_playing
    }

    /// Last published stream health.
    pub fn stream_health(&self) -> (r: StreamHealth)
        ensures
            r == self.health,
    {
        self.health
    }

    /// Last published state label.
    pub fn playback_text(&self) -> (r: &'static str)
        ensures
            r == self.text,
    {
        self.text
    }

    /// The stream failed or ended. While listening, and unless a reconnection is already
    /// pending, the attempt counter goes up, the matching indicators are published and a
    /// reconnection is scheduled after the capped backoff delay.
    pub fn on_stream_lost(&mut self) -> (e: Effects)
        ensures
            *final(self) == old(self).after_stream_lost(),
            old(self).reconnects_on_loss() ==> e == (Effects {
                cancel_timer: false,
                pipeline: None,
                schedule: Some(
                    ReconnectTimer {
                        delay_secs: reconnect_delay(old(self).next_attempt()),
                        generation: old(self).generation,
                    },
                ),
                notify: true,
            }),
            !old(self).reconnects_on_loss() ==> e == no_effects(),
    {
        if !self.is_playing || self.reconnect_pending {
            return Effects { cancel_timer: false, pipeline: None, schedule: None, notify: false };
        }
        let attempt = self.reconnect_attempts.saturating_add(1);
        self.reconnect_attempts = attempt;
        let step = reconnect_step(attempt);
        let (health, text) = reconnecting_indicators(attempt);
        self.health = health;
        self.text = text;
        self.reconnect_pending = true;
        Effects {
            cancel_timer: false,
            pipeline: None,
            schedule: Some(ReconnectTimer { delay_secs: step.delay_secs, generation: self.generation }),
            notify: true,
        }
    }

    /// A reconnection timer fired. It is consumed either way; the stream is rebuilt only
    /// if no play / pause happened since it was scheduled and the listener still listens.
    pub fn on_reconnect_due(&mut self, generation: u64) -> (e: Effects)
        ensures
            *final(self) == (PlayerController { reconnect_pending: false, ..*old(self) }),
            old(self).restarts_on_due(generation) ==> e == (Effects {
                cancel_timer: false,
                pipeline: Some(PipelineCommand::Restart),
                schedule: None,
                notify: false,
            }),
            !old(self).restarts_on_due(generation) ==> e == no_effects(),
    {
        self.reconnect_pending = false;
        if generation == self.generation && self.is_playing {
            Effects {
                cancel_timer: false,
                pipeline: Some(PipelineCommand::Restart),
                schedule: None,
                notify: false,
            }
        } else {
            Effects { cancel_timer: false, pipeline: None, schedule: None, notify: false }
        }
    }

    /// The pipeline itself reached the playing state: while listening, the attempt
    /// counter is reset and « En écoute » is shown.
    pub fn on_pipeline_playing(&mut self) -> (e: Effects)
        ensures
            *final(self) == old(self).after_pipeline_playing(),
            e == (Effects {
                cancel_timer: false,
                pipeline: None,
                schedule: None,
                notify: old(self).is_playing,
            }),
    {
        if self.is_playing {
            self.reconnect_attempts = 0;
            self.health = StreamHealth::Active;
            self.text = playback_text::PLAYING;
        }
        Effects { cancel_timer: false, pipeline: None, schedule: None, notify: self.is_playing }
    }

    /// Buffering progress: once the buffer is full while listening, the pipeline is asked
    /// to play. The state does not change.
    pub fn on_buffering(&self, percent: i32) -> (e: Effects)
        ensures
            self.is_playing && percent >= 100 ==> e == (Effects {
                cancel_timer: false,
                pipeline: Some(PipelineCommand::Play),
                schedule: None,
                notify: false,
            }),
            !(self.is_playing && percent >= 100) ==> e == no_effects(),
    {
        if self.is_playing && percent >= 100 {
            Effects {
                cancel_timer: false,
                pipeline: Some(PipelineCommand::Play),
                schedule: None,
                notify: false,
            }
        } else {
            Effects { cancel_timer: false, pipeline: None, schedule: None, notify: false }
        }
    }
}

/// Playback status reported to the desktop's media controls.
#[derive(Debug, Clone, Copy, PartialEq, Eq, Structural)]
pub enum TransportStatus {
    Playing,
    Paused,
    Stopped,
}

impl PlayerController {
    /// Status for the media controls: playing while the listener listens, stopped once
    /// the stream is given up (« hors ligne »), paused otherwise.
    pub fn transport_status(&self) -> (r: TransportStatus)
        ensures
            self.is_playing ==> r == TransportStatus::Playing,
            !self.is_playing && self.health == StreamHealth::Failed ==> r == TransportStatus::Stopped,
            !self.is_playing && self.health != StreamHealth::Failed ==> r == TransportStatus::Paused,
    {
        if self.is_playing {
            TransportStatus::Playing
        } else if self.health == StreamHealth::Failed {
            TransportStatus::Stopped
        } else {
            TransportStatus::Paused
        }
    }
}

/// A play or a pause makes every reconnection scheduled before it stale: its timer no
/// longer restarts the stream.
pub proof fn play_or_pause_invalidates_scheduled_reconnections(s: PlayerController, g: u64)
    requires
        g == s.generation,
    ensures
        !s.after_play().restarts_on_due(g),
        !s.after_pause().restarts_on_due(g),
{
}

/// At most one reconnection is pending: a second loss before the timer fired changes
/// nothing and schedules nothing.
pub proof fn one_pending_reconnection_at_a_time(s: PlayerController)
    ensures
        s.after_stream_lost().reconnects_on_loss() == false,
        s.reconnects_on_loss() ==> s.after_stream_lost().reconnect_pending,
        !s.reconnects_on_loss() ==> s.after_stream_lost() == s,
{
}

/// After a play, effective playback resets the counter: the next loss is attempt 1,
/// waits 2 s and shows « Reconnexion au direct… » rather than « hors ligne ».
pub proof fn play_restarts_the_grace_window(s: PlayerController)
    ensures
        s.after_play().next_attempt() == 1,
        s.after_play().after_pipeline_playing().next_attempt() == 1,
        s.after_play().after_stream_lost().health == StreamHealth::Connecting,
        s.after_play().after_stream_lost().text == playback_text::RECONNECTING,
        reconnect_delay(s.after_play().next_attempt()) == 2,
{
}

/// A paused controller never reconnects, whatever the pipeline reports.
pub proof fn paused_never_reconnects(s: PlayerController, g: u64)
    ensures
        !s.after_pause().reconnects_on_loss(),
        !s.after_pause().restarts_on_due(g),
        s.after_pause().after_stream_lost() == s.after_pause(),
        s.after_pause().after_pipeline_playing() == s.after_pause(),
{
}

} // verus!
