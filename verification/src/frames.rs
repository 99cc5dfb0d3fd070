use vstd::prelude::*;
use crate::text::{contains, append_decimal, dec_chars, has_substring};

verus! {

/// The location shown when no frame outside the logger could be found.
pub open spec fn unknown_location() -> Seq<char> {
    "*********unknown**********"@
}

/// Whether a source file is the logger's own, by the two spellings of its path.
pub open spec fn is_logger_file(file: Seq<char>, marker: Seq<char>, alt_marker: Seq<char>) -> bool {
    has_substring(file, marker) || has_substring(file, alt_marker)
}

/// The text of a line number: its digits, or nothing where it is unknown.
pub open spec fn lineno_text(lineno: Option<u32>) -> Seq<char> {
    match lineno {
        Some(n) => dec_chars(n as nat),
        None => Seq::empty(),
    }
}

/// `file:line` of a frame.
pub open spec fn frame_text(file: Seq<char>, lineno: Option<u32>) -> Seq<char> {
    file + ":"@ + lineno_text(lineno)
}

/// The state of a walk down the call stack in search of the first frame that called
/// into the logger: whether a frame of the logger was seen, whether the frame just read
/// was the caller's, and the location found so far.
pub struct FrameSearch {
    pub found_logger: bool,
    pub found_frame: bool,
    pub location: String,
}

impl FrameSearch {
    /// A search that has seen nothing yet.
    pub fn new() -> (r: FrameSearch)
        ensures
            !r.found_logger,
            !r.found_frame,
            r.location@ == unknown_location(),
    {
        FrameSearch { found_logger: false, found_frame: false, location: String::from_str("*********unknown**********") }
    }

    /// Reads one symbol of a frame: its source file, where known, and its line number.
    /// A symbol of the logger's own file marks the logger as seen; the first symbol after
    /// that from another file is the caller, whose `file:line` becomes the location.
    pub fn step(&mut self, file: Option<String>, lineno: Option<u32>, marker: &str, alt_marker: &str)
        ensures
            file is None ==> final(self).found_logger == old(self).found_logger && !final(self).found_frame
                && final(self).location@ == old(self).location@,
            file matches Some(f) ==> {
                let is_logger = is_logger_file(f@, marker@, alt_marker@);
                &&& final(self).found_logger == (old(self).found_logger || is_logger)
                &&& final(self).found_frame == (old(self).found_logger && !is_logger)
                &&& final(self).location@ == if final(self).found_frame {
                    frame_text(f@, lineno)
                } else {
                    old(self).location@
                }
            },
            is_frame_location(old(self).location@, marker@, alt_marker@) ==> is_frame_location(
                final(self).location@,
                marker@,
                alt_marker@,
            ),
    {
        match file {
            None => {
                self.found_frame = false;
            },
            Some(f) => {
                let is_logger = contains(f.as_str(), marker) || contains(f.as_str(), alt_marker);
                if is_logger {
                    self.found_logger = true;
                }
                if !is_logger && self.found_logger {
                    let mut loc = f.clone();
                    proof {
                        reveal_strlit(":");
                    }
                    loc.append(":");
                    match lineno {
                        Some(n) => {
                            append_decimal(&mut loc, n as u128);
                        },
                        None => {},
                    }
                    assert(loc@ =~= frame_text(f@, lineno));
                    self.location = loc;
                    self.found_frame = true;
                } else {
                    self.found_frame = false;
                }
            },
        }
    }

    /// Whether the walk should go on to the next frame.
    pub fn keep_going(&self) -> (r: bool)
        ensures
            r == !self.found_frame,
    {
        !self.found_frame
    }
}

/// Whether `loc` is a location a frame search can settle on: the unknown location, or the
/// `file:line` of a frame whose file is not the logger's.
pub open spec fn is_frame_location(loc: Seq<char>, marker: Seq<char>, alt_marker: Seq<char>) -> bool {
    ||| loc == unknown_location()
    ||| exists|f: Seq<char>, l: Option<u32>| !is_logger_file(f, marker, alt_marker) && loc == #[trigger] frame_text(f, l)
}

/// Walks the call stack with `backtrace::trace`, resolving each frame with
/// `backtrace::resolve_frame`, and hands each symbol's file and line to `search.step` until
/// the search finds the caller. What the stack holds is the machine's; the body only runs
/// the search's verified steps, each of which keeps a location a search can settle on, so
/// the location returned is one.
#[verifier::external_body]
pub(crate) fn caller_location(search: FrameSearch, marker: &str, alt_marker: &str) -> (r: String)
    requires
        is_frame_location(search.location@, marker@, alt_marker@),
    ensures
        is_frame_location(r@, marker@, alt_marker@),
{
    let mut search = search;
    backtrace::trace(|frame| {
        backtrace::resolve_frame(frame, |symbol| {
            let file = symbol.filename().map(|p| p.display().to_string());
            search.step(file, symbol.lineno(), marker, alt_marker);
        });
        search.keep_going()
    });
    search.location
}

/// The `Debug` text of `backtrace::Backtrace::new()`, the stack of the calling thread.
/// It depends on the machine and the moment: nothing is stated of it.
#[verifier::external_body]
pub(crate) fn backtrace_text() -> (r: Vec<u8>) {
    format!("{:?}", backtrace::Backtrace::new()).into_bytes()
}

} // verus!
