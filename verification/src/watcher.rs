//! The clipboard watcher's state machine. The watcher itself is a perpetual
//! background loop; its whole state is the last observed value of the OS
//! clipboard change counter. Each polling cycle hands this module the
//! counter just read and the clipboard's text content, and gets back the
//! notification to emit, if any.
use vstd::prelude::*;

use crate::text::trim_spec;

verus! {

/// The watcher's only state: the last observed change counter, zero before
/// anything was observed.
pub struct Watcher {
    pub last_seq: u32,
}

impl Watcher {
    /// A watcher primed with the counter read at startup, or zero when the
    /// counter could not be read.
    pub fn new(initial: Option<u32>) -> (w: Watcher)
        ensures
            w.last_seq == (match initial {
                Some(n) => n,
                None => 0u32,
            }),
    {
        Watcher { last_seq: match initial {
            Some(n) => n,
            None => 0,
        } }
    }

    /// One polling cycle. `seq` is the change counter just read (`None` when
    /// unreadable) and `text` the clipboard's textual content (`None` for
    /// non-text content). A notification carrying the text is emitted exactly
    /// when the counter changed and the text is non-empty after trimming;
    /// the counter is remembered whenever it changed, even for content that
    /// is not reported.
    pub fn poll(&mut self, seq: Option<u32>, text: Option<String>) -> (notify: Option<String>)
        ensures
            match seq {
                None => final(self).last_seq == old(self).last_seq && notify is None,
                Some(n) => {
                    if n == old(self).last_seq {
                        final(self).last_seq == old(self).last_seq && notify is None
                    } else {
                        final(self).last_seq == n && (match text {
                            Some(t) => {
                                if trim_spec(t@).len() > 0 {
                                    notify == Some(t)
                                } else {
                                    notify is None
                                }
                            },
                            None => notify is None,
                        })
                    }
                },
            },
    {
        match seq {
            None => None,
            Some(n) => {
                if n == self.last_seq {
                    None
                } else {
                    self.last_seq = n;
                    match text {
                        Some(t) => {
                            let (a, b) = crate::text::trim_bounds(t.as_str());
                            if b > a {
                                Some(t)
                            } else {
                                None
                            }
                        },
                        None => None,
                    }
                }
            },
        }
    }
}

} // verus!
