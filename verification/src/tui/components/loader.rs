//! An animated spinner with a message.
use crate::tui::keybindings::strs_view;
use crate::tui::strs::{byte_len, push_char, push_str, str_byte_len, str_chars, string_from_chars, string_from_str, sub_chars};
use crate::tui::word_nav::{count_chars_within, prefix_bytes};
use std::time::Instant;
use vstd::prelude::*;

verus! {

broadcast use vstd::string::group_string_axioms;

#[verifier::external_type_specification]
#[verifier::external_body]
pub struct ExInstant(Instant);

/// The current instant (`Instant::now`).
///
/// Trusted: nothing is stated of the instant it gives.
#[verifier::external_body]
pub(crate) fn instant_now() -> Instant {
    Instant::now()
}

/// Whole milliseconds since `t` (`Instant::elapsed`, `Duration::as_millis`).
///
/// Trusted: the result depends on the clock; nothing is stated of it.
#[verifier::external_body]
pub(crate) fn millis_since(t: &Instant) -> u128 {
    t.elapsed().as_millis()
}

/// The line a loader shows: the frame, then a space and the message if any.
pub open spec fn loader_line(frame: Seq<char>, message: Seq<char>) -> Seq<char> {
    if message.len() == 0 {
        frame
    } else {
        frame + seq![' '] + message
    }
}

/// The line cut to `width` bytes where it is longer.
pub open spec fn cut_to_bytes(line: Seq<char>, width: nat) -> Seq<char> {
    if byte_len(line) > width {
        prefix_bytes(line, width as int)
    } else {
        line
    }
}

/// The state of a loader: frames, interval, message, current frame, started.
pub struct LoaderView {
    pub frames: Seq<Seq<char>>,
    pub interval_ms: u64,
    pub message: Seq<char>,
    pub current_frame: nat,
    pub started: bool,
}

/// The Braille spinner frames.
pub open spec fn default_frames() -> Seq<Seq<char>> {
    seq!["⠋"@, "⠙"@, "⠹"@, "⠸"@, "⠼"@, "⠴"@, "⠦"@, "⠧"@, "⠇"@, "⠏"@]
}

/// Animated spinner with a message.
pub struct Loader {
    frames: Vec<String>,
    interval_ms: u64,
    message: String,
    current_frame: usize,
    started: bool,
    last_render: Instant,
}

impl View for Loader {
    type V = LoaderView;

    closed spec fn view(&self) -> LoaderView {
        LoaderView {
            frames: strs_view(self.frames@),
            interval_ms: self.interval_ms,
            message: self.message@,
            current_frame: self.current_frame as nat,
            started: self.started,
        }
    }
}

impl Loader {
    /// The current frame is one of the frames (or 0 where there are none).
    pub open spec fn wf(&self) -> bool {
        self@.current_frame == 0 || self@.current_frame < self@.frames.len()
    }

    /// The default spinner, 80 ms per frame, no message, stopped.
    pub fn new() -> (l: Self)
        ensures
            l.wf(),
            l@ == (LoaderView { frames: default_frames(), interval_ms: 80, message: seq![], current_frame: 0, started: false }),
    {
        let frames = vec![
            string_from_str("⠋"),
            string_from_str("⠙"),
            string_from_str("⠹"),
            string_from_str("⠸"),
            string_from_str("⠼"),
            string_from_str("⠴"),
            string_from_str("⠦"),
            string_from_str("⠧"),
            string_from_str("⠇"),
            string_from_str("⠏"),
        ];
        let l = Loader {
            frames,
            interval_ms: 80,
            message: String::new(),
            current_frame: 0,
            started: false,
            last_render: instant_now(),
        };
        assert(strs_view(l.frames@) =~= default_frames());
        assert(l.message@ =~= Seq::<char>::empty());
        l
    }

    /// Replace the frames; the current frame goes back to the first where it
    /// is past the new ones.
    pub fn set_frames(&mut self, frames: Vec<String>)
        requires
            old(self).wf(),
        ensures
            final(self).wf(),
            final(self)@ == (LoaderView {
                frames: strs_view(frames@),
                current_frame: if old(self)@.current_frame >= frames@.len() { 0 } else { old(self)@.current_frame },
                ..old(self)@
            }),
    {
        self.frames = frames;
        if self.current_frame >= self.frames.len() {
            self.current_frame = 0;
        }
    }

    pub fn set_interval_ms(&mut self, ms: u64)
        requires
            old(self).wf(),
        ensures
            final(self).wf(),
            final(self)@ == (LoaderView { interval_ms: ms, ..old(self)@ }),
    {
        self.interval_ms = ms;
    }

    pub fn set_message(&mut self, message: &str)
        requires
            old(self).wf(),
        ensures
            final(self).wf(),
            final(self)@ == (LoaderView { message: message@, ..old(self)@ }),
    {
        self.message = string_from_str(message);
    }

    /// Start animating.
    pub fn start(&mut self)
        requires
            old(self).wf(),
        ensures
            final(self).wf(),
            final(self)@ == (LoaderView { started: true, ..old(self)@ }),
    {
        self.started = true;
        self.last_render = instant_now();
    }

    /// Stop animating.
    pub fn stop(&mut self)
        requires
            old(self).wf(),
        ensures
            final(self).wf(),
            final(self)@ == (LoaderView { started: false, ..old(self)@ }),
    {
        self.started = false;
    }

    /// With `elapsed_ms` since the last frame: a started loader with frames
    /// moves to the next frame (cyclically) once the interval has passed.
    /// Returns whether it moved.
    pub fn tick_after(&mut self, elapsed_ms: u128) -> (moved: bool)
        requires
            old(self).wf(),
        ensures
            final(self).wf(),
            moved == (old(self)@.started && old(self)@.frames.len() > 0 && elapsed_ms >= old(self)@.interval_ms),
            final(self)@ == (if moved {
                LoaderView {
                    current_frame: ((old(self)@.current_frame + 1) % old(self)@.frames.len()) as nat,
                    ..old(self)@
                }
            } else {
                old(self)@
            }),
    {
        if !self.started || self.frames.len() == 0 {
            return false;
        }
        if elapsed_ms >= self.interval_ms as u128 {
            self.current_frame = (self.current_frame + 1) % self.frames.len();
            true
        } else {
            false
        }
    }

    /// Advance the animation by the time since the last frame.
    pub fn tick(&mut self) -> (moved: bool)
        requires
            old(self).wf(),
        ensures
            final(self).wf(),
            !moved ==> final(self)@ == old(self)@,
            moved ==> old(self)@.started && old(self)@.frames.len() > 0 && final(self)@ == (LoaderView {
                current_frame: ((old(self)@.current_frame + 1) % old(self)@.frames.len()) as nat,
                ..old(self)@
            }),
    {
        if !self.started || self.frames.len() == 0 {
            return false;
        }
        let elapsed = millis_since(&self.last_render);
        let moved = self.tick_after(elapsed);
        if moved {
            self.last_render = instant_now();
        }
        moved
    }

    /// One line: the current frame and the message, cut after the last
    /// character that ends within `width` bytes, so it takes at most `width`
    /// bytes; one empty line without frames.
    pub fn render(&self, width: usize) -> (r: Vec<String>)
        requires
            self.wf(),
        ensures
            r@.len() == 1,
            byte_len(r@[0]@) <= width,
            strs_view(r@) == (if self@.frames.len() == 0 {
                seq![Seq::<char>::empty()]
            } else {
                seq![cut_to_bytes(
                    loader_line(self@.frames[self@.current_frame as int % self@.frames.len() as int], self@.message),
                    width as nat,
                )]
            }),
    {
        if self.frames.len() == 0 {
            let r = vec![String::new()];
            assert(strs_view(r@) =~= seq![Seq::<char>::empty()]);
            return r;
        }
        let idx = self.current_frame % self.frames.len();
        let mut line = string_from_str(self.frames[idx].as_str());
        let msg = str_chars(self.message.as_str());
        if msg.len() > 0 {
            push_char(&mut line, ' ');
            push_str(&mut line, self.message.as_str());
        }
        assert(line@ =~= loader_line(strs_view(self.frames@)[idx as int], self.message@));
        let n = str_byte_len(line.as_str());
        let result = if n > width {
            let cs = str_chars(line.as_str());
            let k = count_chars_within(&cs, width);
            let cut = string_from_chars(&sub_chars(&cs, 0, k));
            assert(cut@ =~= prefix_bytes(line@, width as int));
            cut
        } else {
            line
        };
        let r = vec![result];
        assert(strs_view(r@) =~= seq![result@]);
        r
    }
}

impl Default for Loader {
    fn default() -> (l: Self)
        ensures
            l.wf(),
            l@ == (LoaderView { frames: default_frames(), interval_ms: 80, message: seq![], current_frame: 0, started: false }),
    {
        Loader::new()
    }
}

} // verus!
