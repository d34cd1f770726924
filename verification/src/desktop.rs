//! The desktop side as the library sees it: the two windows, the platform
//! description and the recent-activity test on session file ages.
use vstd::prelude::*;

verus! {

/// One of the application's windows.
#[derive(Debug, Clone, Copy, PartialEq, Eq, Structural)]
pub enum WindowTarget {
    Floating,
    Dashboard,
}

pub open spec fn window_label(target: WindowTarget) -> Seq<char> {
    match target {
        WindowTarget::Floating => "floating"@,
        WindowTarget::Dashboard => "dashboard"@,
    }
}

impl WindowTarget {
    /// The label of the window.
    pub fn label(self) -> (label: &'static str)
        ensures
            label@ == window_label(self),
    {
        match self {
            WindowTarget::Floating => "floating",
            WindowTarget::Dashboard => "dashboard",
        }
    }
}

/// What the platform reports about itself.
#[derive(Debug, Clone)]
pub struct PlatformInfo {
    pub platform: String,
    pub version: String,
    pub architecture: String,
    pub family: String,
}

/// A span of time: whole seconds and the nanoseconds beyond them.
#[derive(Debug, Clone, Copy, PartialEq, Eq, Structural)]
pub struct Elapsed {
    pub seconds: u64,
    pub nanos: u32,
}

pub open spec fn elapsed_le(a: Elapsed, b: Elapsed) -> bool {
    a.seconds < b.seconds || (a.seconds == b.seconds && a.nanos <= b.nanos)
}

/// Whether a file modified `age` ago counts as recent: within `within`, or
/// modified in the future (no age).
pub fn modified_recently(age: Option<Elapsed>, within: Elapsed) -> (recent: bool)
    ensures
        recent == match age {
            Some(a) => elapsed_le(a, within),
            None => true,
        },
{
    match age {
        Some(a) => a.seconds < within.seconds || (a.seconds == within.seconds && a.nanos
            <= within.nanos),
        None => true,
    }
}

/// Whether any of the session files, of the given ages, counts as recent.
pub fn any_recent(ages: &Vec<Option<Elapsed>>, within: Elapsed) -> (recent: bool)
    ensures
        recent == exists|i: int|
            0 <= i < ages@.len() && match #[trigger] ages@[i] {
                Some(a) => elapsed_le(a, within),
                None => true,
            },
{
    let mut k: usize = 0;
    while k < ages.len()
        invariant
            k <= ages@.len(),
            forall|i: int|
                0 <= i < k ==> !match #[trigger] ages@[i] {
                    Some(a) => elapsed_le(a, within),
                    None => true,
                },
        decreases ages@.len() - k,
    {
        if modified_recently(ages[k], within) {
            return true;
        }
        k = k + 1;
    }
    false
}

/// Where Codex keeps its session logs, if anywhere.
pub struct ActivityDetector {
    sessions_root: Option<std::path::PathBuf>,
}

impl ActivityDetector {
    pub closed spec fn root(&self) -> Option<std::path::PathBuf> {
        self.sessions_root
    }

    pub fn new(sessions_root: Option<std::path::PathBuf>) -> (detector: Self)
        ensures
            detector.root() == sessions_root,
    {
        ActivityDetector { sessions_root }
    }

    pub fn sessions_root(&self) -> (root: &Option<std::path::PathBuf>)
        ensures
            *root == self.root(),
    {
        &self.sessions_root
    }
}

} // verus!
