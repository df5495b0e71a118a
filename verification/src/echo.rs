//! Echo suppression for mpv events.
//!
//! When a command goes out to mpv, mpv applies it and then reports a matching
//! edge. Without a guard that edge would be broadcast as if the local user had
//! just pressed a button, and go round the mesh forever. The guard remembers
//! each command for a short while and eats the first matching edge.
//!
//! mpv snaps seeks to nearby keyframes, so a seek that we decided on matches
//! within a tolerance. A seek that a peer asked for matches whatever position
//! mpv reports: the next seek edge is ours, and broadcasting it would make two
//! peers with different keyframes chase each other.

use vstd::prelude::*;

use crate::room::plus_saturating;

verus! {

/// How long a command is remembered.
pub const WINDOW_MS: u64 = 3_000;

/// How far mpv may land from the target of a seek of ours.
pub const SEEK_TOLERANCE_MS: u64 = 1_000;

/// Where the seek that armed the guard came from.
#[derive(Debug, Clone, Copy, PartialEq, Eq, Structural)]
pub enum SeekOrigin {
    /// A user keypress, drift correction, or any other local decision.
    Local,
    /// An inbound control event of a peer.
    Remote,
}

/// A remembered pause command.
#[derive(Debug, Clone, Copy, PartialEq, Eq, Structural)]
pub struct PendingPause {
    pub expected: bool,
    pub deadline_ms: u64,
}

/// A remembered seek command.
#[derive(Debug, Clone, Copy, PartialEq, Eq, Structural)]
pub struct PendingSeek {
    pub expected: u64,
    pub deadline_ms: u64,
    pub origin: SeekOrigin,
}

/// A remembered speed command.
#[derive(Debug, Clone, Copy, PartialEq, Eq, Structural)]
pub struct PendingSpeed {
    pub expected: u16,
    pub deadline_ms: u64,
}

/// The commands that mpv is expected to echo, at most one of each kind.
#[derive(Debug, Clone, Copy, PartialEq, Eq, Structural)]
pub struct EchoGuard {
    pub pending_pause: Option<PendingPause>,
    pub pending_seek: Option<PendingSeek>,
    pub pending_speed: Option<PendingSpeed>,
}

/// When a command sent now is forgotten.
pub open spec fn deadline(now_ms: u64) -> u64 {
    plus_saturating(now_ms, WINDOW_MS) as u64
}

/// The position is where the seek was to lead, give or take.
pub open spec fn near(expected: u64, reported: u64) -> bool {
    -SEEK_TOLERANCE_MS <= expected - reported <= SEEK_TOLERANCE_MS
}

impl EchoGuard {
    /// A pause edge that echoes the remembered command.
    pub open spec fn echoes_pause(self, value: bool, now_ms: u64) -> bool {
        self.pending_pause matches Some(p) && now_ms < p.deadline_ms && p.expected == value
    }

    /// A position after a seek that echoes the remembered command.
    pub open spec fn echoes_seek(self, media_pos_ms: u64, now_ms: u64) -> bool {
        self.pending_seek matches Some(p) && now_ms < p.deadline_ms && (p.origin is Remote || near(
            p.expected,
            media_pos_ms,
        ))
    }

    /// A speed edge that echoes the remembered command.
    pub open spec fn echoes_speed(self, speed_centi: u16, now_ms: u64) -> bool {
        self.pending_speed matches Some(p) && now_ms < p.deadline_ms && p.expected == speed_centi
    }

    /// The guard after a pause edge: a match or an expired command is forgotten.
    pub open spec fn after_pause(self, value: bool, now_ms: u64) -> EchoGuard {
        EchoGuard {
            pending_pause: match self.pending_pause {
                Some(p) => if self.echoes_pause(value, now_ms) || now_ms >= p.deadline_ms {
                    None
                } else {
                    Some(p)
                },
                None => None,
            },
            ..self
        }
    }

    /// The guard after the position edge of a seek: a match or an expired
    /// command is forgotten.
    pub open spec fn after_seek(self, media_pos_ms: u64, now_ms: u64) -> EchoGuard {
        EchoGuard {
            pending_seek: match self.pending_seek {
                Some(p) => if self.echoes_seek(media_pos_ms, now_ms) || now_ms >= p.deadline_ms {
                    None
                } else {
                    Some(p)
                },
                None => None,
            },
            ..self
        }
    }

    /// The guard after a speed edge: a match or an expired command is forgotten.
    pub open spec fn after_speed(self, speed_centi: u16, now_ms: u64) -> EchoGuard {
        EchoGuard {
            pending_speed: match self.pending_speed {
                Some(p) => if self.echoes_speed(speed_centi, now_ms) || now_ms >= p.deadline_ms {
                    None
                } else {
                    Some(p)
                },
                None => None,
            },
            ..self
        }
    }

    pub fn new() -> (r: Self)
        ensures
            r == (EchoGuard { pending_pause: None, pending_seek: None, pending_speed: None }),
    {
        EchoGuard { pending_pause: None, pending_seek: None, pending_speed: None }
    }

    /// Record that a pause command just went to mpv.
    pub fn record_pause(&mut self, value: bool, now_ms: u64)
        ensures
            *final(self) == (EchoGuard {
                pending_pause: Some(
                    PendingPause { expected: value, deadline_ms: deadline(now_ms) },
                ),
                ..*old(self)
            }),
    {
        self.pending_pause = Some(
            PendingPause { expected: value, deadline_ms: now_ms.saturating_add(WINDOW_MS) },
        );
    }

    /// Record that a seek of our own just went to mpv.
    pub fn record_seek(&mut self, media_pos_ms: u64, now_ms: u64)
        ensures
            *final(self) == (EchoGuard {
                pending_seek: Some(
                    PendingSeek {
                        expected: media_pos_ms,
                        deadline_ms: deadline(now_ms),
                        origin: SeekOrigin::Local,
                    },
                ),
                ..*old(self)
            }),
    {
        self.pending_seek = Some(
            PendingSeek {
                expected: media_pos_ms,
                deadline_ms: now_ms.saturating_add(WINDOW_MS),
                origin: SeekOrigin::Local,
            },
        );
    }

    /// Record that a seek went to mpv because a peer asked for it.
    pub fn record_seek_remote(&mut self, media_pos_ms: u64, now_ms: u64)
        ensures
            *final(self) == (EchoGuard {
                pending_seek: Some(
                    PendingSeek {
                        expected: media_pos_ms,
                        deadline_ms: deadline(now_ms),
                        origin: SeekOrigin::Remote,
                    },
                ),
                ..*old(self)
            }),
    {
        self.pending_seek = Some(
            PendingSeek {
                expected: media_pos_ms,
                deadline_ms: now_ms.saturating_add(WINDOW_MS),
                origin: SeekOrigin::Remote,
            },
        );
    }

    /// Record that a speed command just went to mpv.
    pub fn record_speed(&mut self, speed_centi: u16, now_ms: u64)
        ensures
            *final(self) == (EchoGuard {
                pending_speed: Some(
                    PendingSpeed { expected: speed_centi, deadline_ms: deadline(now_ms) },
                ),
                ..*old(self)
            }),
    {
        self.pending_speed = Some(
            PendingSpeed { expected: speed_centi, deadline_ms: now_ms.saturating_add(WINDOW_MS) },
        );
    }

    /// Whether a pause edge echoes a command. A match or an expired command is
    /// forgotten; a mismatch leaves it in place.
    pub fn consume_pause(&mut self, value: bool, now_ms: u64) -> (r: bool)
        ensures
            r == old(self).echoes_pause(value, now_ms),
            *final(self) == old(self).after_pause(value, now_ms),
    {
        let p = match self.pending_pause {
            Some(p) => p,
            None => {
                return false;
            }
        };
        if now_ms >= p.deadline_ms {
            self.pending_pause = None;
            return false;
        }
        if p.expected == value {
            self.pending_pause = None;
            true
        } else {
            false
        }
    }

    /// Whether the position after a seek echoes a command. Local seeks match
    /// within the tolerance, remote ones always. A match or an expired command
    /// is forgotten; a mismatch leaves it in place.
    pub fn consume_seek(&mut self, media_pos_ms: u64, now_ms: u64) -> (r: bool)
        ensures
            r == old(self).echoes_seek(media_pos_ms, now_ms),
            *final(self) == old(self).after_seek(media_pos_ms, now_ms),
    {
        let p = match self.pending_seek {
            Some(p) => p,
            None => {
                return false;
            }
        };
        if now_ms >= p.deadline_ms {
            self.pending_seek = None;
            return false;
        }
        match p.origin {
            SeekOrigin::Remote => {
                self.pending_seek = None;
                true
            }
            SeekOrigin::Local => {
                let gap: u64 = if p.expected >= media_pos_ms {
                    p.expected - media_pos_ms
                } else {
                    media_pos_ms - p.expected
                };
                if gap <= SEEK_TOLERANCE_MS {
                    self.pending_seek = None;
                    true
                } else {
                    false
                }
            }
        }
    }

    /// Whether a speed edge echoes a command. A match or an expired command is
    /// forgotten; a mismatch leaves it in place.
    pub fn consume_speed(&mut self, speed_centi: u16, now_ms: u64) -> (r: bool)
        ensures
            r == old(self).echoes_speed(speed_centi, now_ms),
            *final(self) == old(self).after_speed(speed_centi, now_ms),
    {
        let p = match self.pending_speed {
            Some(p) => p,
            None => {
                return false;
            }
        };
        if now_ms >= p.deadline_ms {
            self.pending_speed = None;
            return false;
        }
        if p.expected == speed_centi {
            self.pending_speed = None;
            true
        } else {
            false
        }
    }
}

impl Default for EchoGuard {
    fn default() -> (r: Self)
        ensures
            r == (EchoGuard { pending_pause: None, pending_seek: None, pending_speed: None }),
    {
        EchoGuard::new()
    }
}

/// A seek that a peer asked for swallows the next position edge inside the
/// window, wherever mpv landed, and only that one.
pub proof fn law_remote_seek_swallows_one_edge(
    guard: EchoGuard,
    landed_ms: u64,
    now_ms: u64,
    next_ms: u64,
    next_at_ms: u64,
)
    requires
        guard.pending_seek matches Some(p) && p.origin is Remote && now_ms < p.deadline_ms,
    ensures
        guard.echoes_seek(landed_ms, now_ms),
        !guard.after_seek(landed_ms, now_ms).echoes_seek(next_ms, next_at_ms),
{
}

/// From its deadline on, no edge echoes a command.
pub proof fn law_expired_commands_do_not_match(guard: EchoGuard, now_ms: u64)
    ensures
        forall|value: bool|
            guard.pending_pause matches Some(p) && p.deadline_ms <= now_ms
                ==> !#[trigger] guard.echoes_pause(value, now_ms),
        forall|pos: u64|
            guard.pending_seek matches Some(p) && p.deadline_ms <= now_ms
                ==> !#[trigger] guard.echoes_seek(pos, now_ms),
        forall|speed: u16|
            guard.pending_speed matches Some(p) && p.deadline_ms <= now_ms
                ==> !#[trigger] guard.echoes_speed(speed, now_ms),
{
}

/// A report echoes a command exactly if that is remembered, is less than three
/// seconds old by its deadline, and fits: pause and speed exactly, a seek of ours
/// to within a second, a seek for a peer always.
pub proof fn law_echoes_fit_the_command(
    guard: EchoGuard,
    value: bool,
    media_pos_ms: u64,
    speed_centi: u16,
    now_ms: u64,
)
    ensures
        guard.echoes_pause(value, now_ms) <==> match guard.pending_pause {
            Some(p) => now_ms < p.deadline_ms && p.expected == value,
            None => false,
        },
        guard.echoes_seek(media_pos_ms, now_ms) <==> match guard.pending_seek {
            Some(p) => now_ms < p.deadline_ms && (p.origin == SeekOrigin::Remote || (
            p.expected - 1_000 <= media_pos_ms <= p.expected + 1_000)),
            None => false,
        },
        guard.echoes_speed(speed_centi, now_ms) <==> match guard.pending_speed {
            Some(p) => now_ms < p.deadline_ms && p.expected == speed_centi,
            None => false,
        },
        now_ms <= u64::MAX - 3_000 ==> deadline(now_ms) == now_ms + 3_000,
        now_ms > u64::MAX - 3_000 ==> deadline(now_ms) == u64::MAX,
{
}

/// A report forgets a command of its own kind that it echoes or that is too old,
/// and no other: a report that does not fit leaves the guard waiting.
pub proof fn law_reports_forget_what_is_done(
    guard: EchoGuard,
    value: bool,
    media_pos_ms: u64,
    speed_centi: u16,
    now_ms: u64,
)
    ensures
        ({
            let g = guard.after_pause(value, now_ms);
            let done = guard.pending_pause is Some && (guard.echoes_pause(value, now_ms)
                || guard.pending_pause->0.deadline_ms <= now_ms);
            &&& done ==> g.pending_pause is None
            &&& !done ==> g == guard
            &&& g.pending_seek == guard.pending_seek
            &&& g.pending_speed == guard.pending_speed
        }),
        ({
            let g = guard.after_seek(media_pos_ms, now_ms);
            let done = guard.pending_seek is Some && (guard.echoes_seek(media_pos_ms, now_ms)
                || guard.pending_seek->0.deadline_ms <= now_ms);
            &&& done ==> g.pending_seek is None
            &&& !done ==> g == guard
            &&& g.pending_pause == guard.pending_pause
            &&& g.pending_speed == guard.pending_speed
        }),
        ({
            let g = guard.after_speed(speed_centi, now_ms);
            let done = guard.pending_speed is Some && (guard.echoes_speed(speed_centi, now_ms)
                || guard.pending_speed->0.deadline_ms <= now_ms);
            &&& done ==> g.pending_speed is None
            &&& !done ==> g == guard
            &&& g.pending_pause == guard.pending_pause
            &&& g.pending_seek == guard.pending_seek
        }),
{
}

} // verus!
