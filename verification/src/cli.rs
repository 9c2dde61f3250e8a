//! Source selection: which transport the caller asked to read from.
//!
//! Argument parsing itself lives outside the library; these types carry the
//! parsed choice, and [`SourceArgs::get`] resolves the one source the caller
//! named.

use vstd::prelude::*;

verus! {

/// The transport to read telegrams from.
#[derive(Debug, PartialEq)]
pub enum Source {
    /// A TCP endpoint, as host-and-port text.
    Socket(String),
    /// A serial device path.
    Serial(String),
    /// A file path.
    File(String),
}

/// The caller's transport flags. The argument parser guarantees that exactly
/// one of them is set.
#[derive(Debug)]
pub struct SourceArgs {
    pub connect: Option<String>,
    pub serial: Option<String>,
    pub file: Option<String>,
}

/// How many of the three transport flags are set.
pub open spec fn sources_set(args: SourceArgs) -> int {
    (if args.connect is Some {
        1int
    } else {
        0int
    }) + (if args.serial is Some {
        1int
    } else {
        0int
    }) + (if args.file is Some {
        1int
    } else {
        0int
    })
}

impl SourceArgs {
    /// The one source that is set.
    pub fn get(&self) -> (r: Source)
        requires
            sources_set(*self) == 1,
        ensures
            self.connect matches Some(h) ==> r == Source::Socket(h),
            self.serial matches Some(t) ==> r == Source::Serial(t),
            self.file matches Some(p) ==> r == Source::File(p),
    {
        if let Some(h) = &self.connect {
            return Source::Socket(h.clone());
        }
        if let Some(t) = &self.serial {
            return Source::Serial(t.clone());
        }
        if let Some(p) = &self.file {
            return Source::File(p.clone());
        }
        proof {
            assert(false);
        }
        vstd::pervasive::unreached()
    }
}

} // verus!
