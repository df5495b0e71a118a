//! Coalesces mpv's per-property media events into a [`MediaId`].
//!
//! mpv reports file name, duration and file size as independent events. The
//! collector buffers the three and emits one [`MediaId`] per distinct file, once
//! all three are known. A fresh file name resets the other two: they belong to
//! the old file.

use vstd::prelude::*;

use crate::double::{whole_seconds, Double};
use crate::protocol::{media_view, MediaId, MediaIdView};
use crate::std_text::lowercase;

verus! {

#[derive(Debug)]
pub struct MediaCollector {
    filename: Option<String>,
    duration_s: Option<u32>,
    file_size: Option<u64>,
    last_emitted: Option<MediaId>,
}

/// What a [`MediaCollector`] has gathered.
pub struct MediaCollectorView {
    pub filename: Option<Seq<char>>,
    pub duration_s: Option<u32>,
    pub file_size: Option<u64>,
    pub last_emitted: Option<MediaIdView>,
}

impl MediaCollectorView {
    pub open spec fn empty() -> MediaCollectorView {
        MediaCollectorView {
            filename: None,
            duration_s: None,
            file_size: None,
            last_emitted: None,
        }
    }

    /// A file name, already in lower case. A new one clears duration and size.
    pub open spec fn with_filename(self, lower: Seq<char>) -> MediaCollectorView {
        if self.filename == Some(lower) {
            self
        } else {
            MediaCollectorView {
                filename: Some(lower),
                duration_s: None,
                file_size: None,
                ..self
            }
        }
    }

    /// The identity, once everything is known.
    pub open spec fn candidate(self) -> Option<MediaIdView> {
        match (self.filename, self.duration_s, self.file_size) {
            (Some(filename_lower), Some(duration_s), Some(size_bytes)) => Some(
                MediaIdView { filename_lower, size_bytes, duration_s },
            ),
            _ => None,
        }
    }

    /// The identity, if it is known and was not emitted last.
    pub open spec fn news(self) -> Option<MediaIdView> {
        if self.candidate() == self.last_emitted {
            None
        } else {
            self.candidate()
        }
    }
}

impl View for MediaCollector {
    type V = MediaCollectorView;

    closed spec fn view(&self) -> MediaCollectorView {
        MediaCollectorView {
            filename: match self.filename {
                Some(f) => Some(f@),
                None => None,
            },
            duration_s: self.duration_s,
            file_size: self.file_size,
            last_emitted: media_view(self.last_emitted),
        }
    }
}

impl MediaCollector {
    pub fn new() -> (r: Self)
        ensures
            r@ == MediaCollectorView::empty(),
    {
        MediaCollector { filename: None, duration_s: None, file_size: None, last_emitted: None }
    }

    /// Record a file name (basename). If it differs from the current one, clear
    /// duration and size.
    pub fn on_filename(&mut self, name: &str)
        ensures
            final(self)@ == old(self)@.with_filename(lowercase(name@)),
    {
        let lower = name.to_lowercase();
        self.set_filename(lower);
    }

    /// Record a file name that is already in lower case.
    pub fn set_filename(&mut self, lower: String)
        ensures
            final(self)@ == old(self)@.with_filename(lower@),
    {
        let same = match &self.filename {
            Some(current) => *current == lower,
            None => false,
        };
        if !same {
            self.filename = Some(lower);
            self.duration_s = None;
            self.file_size = None;
        }
    }

    /// Record the duration, rounded to whole seconds.
    pub fn on_duration_secs(&mut self, secs: Double)
        ensures
            final(self)@ == (MediaCollectorView {
                duration_s: Some(whole_seconds(secs@) as u32),
                ..old(self)@
            }),
    {
        self.duration_s = Some(secs.to_whole_seconds());
    }

    pub fn on_file_size(&mut self, bytes: u64)
        ensures
            final(self)@ == (MediaCollectorView { file_size: Some(bytes), ..old(self)@ }),
    {
        self.file_size = Some(bytes);
    }

    /// If all three fields are known and differ from the last emission, hand
    /// out the new identity and remember it.
    pub fn take_if_changed(&mut self) -> (r: Option<MediaId>)
        ensures
            media_view(r) == old(self)@.news(),
            final(self)@ == (MediaCollectorView {
                last_emitted: match old(self)@.news() {
                    Some(id) => Some(id),
                    None => old(self)@.last_emitted,
                },
                ..old(self)@
            }),
    {
        let candidate = match (&self.filename, self.duration_s, self.file_size) {
            (Some(f), Some(d), Some(s)) => MediaId {
                filename_lower: f.clone(),
                size_bytes: s,
                duration_s: d,
            },
            _ => {
                return None;
            }
        };
        if let Some(last) = &self.last_emitted {
            if last.filename_lower == candidate.filename_lower && last.size_bytes
                == candidate.size_bytes && last.duration_s == candidate.duration_s {
                return None;
            }
        }
        self.last_emitted = Some(candidate.clone());
        Some(candidate)
    }
}

impl Default for MediaCollector {
    fn default() -> (r: Self)
        ensures
            r@ == MediaCollectorView::empty(),
    {
        MediaCollector::new()
    }
}

/// An identity is emitted once: right after an emission there is no news.
pub proof fn law_emits_once(c: MediaCollectorView)
    ensures
        (MediaCollectorView {
            last_emitted: match c.news() {
                Some(id) => Some(id),
                None => c.last_emitted,
            },
            ..c
        }).news() is None,
{
}

/// Nothing is emitted under a new file name before duration and size have been
/// reported anew.
pub proof fn law_new_file_starts_over(c: MediaCollectorView, lower: Seq<char>)
    requires
        c.filename != Some(lower),
    ensures
        c.with_filename(lower).news() is None,
        c.with_filename(lower).duration_s is None,
        c.with_filename(lower).file_size is None,
{
}

/// There is news exactly if name, length and size are known and are not what was
/// announced last, and then it is these three.
pub proof fn law_news_is_complete_and_new(c: MediaCollectorView)
    ensures
        ({
            let complete = c.filename is Some && c.duration_s is Some && c.file_size is Some;
            let id = MediaIdView {
                filename_lower: c.filename->0,
                size_bytes: c.file_size->0,
                duration_s: c.duration_s->0,
            };
            &&& c.news() is Some <==> complete && c.last_emitted != Some(id)
            &&& c.news() is Some ==> c.news() == Some(id)
        }),
{
}

/// A file name that is known already changes nothing; a new one keeps only what
/// was announced last.
pub proof fn law_names_are_kept(c: MediaCollectorView, lower: Seq<char>)
    ensures
        c.with_filename(lower).filename == Some(lower),
        c.filename == Some(lower) ==> c.with_filename(lower) == c,
        c.with_filename(lower).last_emitted == c.last_emitted,
{
}

} // verus!
