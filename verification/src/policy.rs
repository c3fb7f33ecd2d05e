//! Policy resolution: raw command-line flags to a fixed per-action policy.
//!
//! Each of the walk's decision points (creating a link, creating a
//! directory, recursing into a directory) runs under one of three modes:
//! always do it, ask the user, or never do it. An explicit per-action
//! mode overrides the blanket "never prompt" shortcut, which in turn
//! overrides the default of asking. The rename-prompt toggles and the
//! symbolic-link choice are independent booleans.

use vstd::prelude::*;

verus! {

/// Three-way mode for one decision point of the walk.
#[derive(Clone, Copy, Debug, PartialEq, Eq, Structural)]
pub enum Action {
    Always,
    Ask,
    Never,
}

/// Raw configuration as it arrives from the command line, as plain values.
#[derive(Clone, Copy, Debug)]
pub struct Cli {
    /// Create symbolic links instead of hard links.
    pub symbolic: bool,
    /// Blanket shortcut: always create, never rename, always recurse.
    pub never_prompt: bool,
    /// Always create links instead of prompting.
    pub always_create_links: bool,
    /// Explicit mode for directory creation, if given.
    pub create_dirs: Option<Action>,
    /// Explicit mode for recursion, if given.
    pub recurse: Option<Action>,
    /// Force the directory rename prompt even under the blanket shortcut.
    pub ask_to_rename_dirs: bool,
    /// Force the link rename prompt even under the blanket shortcut.
    pub ask_to_rename_links: bool,
}

/// The resolved policy the walk runs under; never mutated after construction.
#[derive(Clone, Copy, Debug)]
pub struct WalkPolicy {
    /// Mode for creating a link to a file.
    pub link_creation: Action,
    /// Mode for recreating a directory.
    pub dir_creation: Action,
    /// Mode for recursing into a recreated directory.
    pub recursion: Action,
    /// Whether to prompt for a new link name before creating a link.
    pub ask_rename_links: bool,
    /// Whether to prompt for a new directory name before creating one.
    pub ask_rename_dirs: bool,
    /// Whether links are symbolic rather than hard.
    pub use_symlink: bool,
}

impl Cli {
    /// Mode for recursion: the explicit flag wins, else the blanket
    /// shortcut means always, else ask.
    pub open spec fn spec_recurse(self) -> Action {
        match self.recurse {
            Some(a) => a,
            None => if self.never_prompt {
                Action::Always
            } else {
                Action::Ask
            },
        }
    }

    /// Mode for directory creation: the explicit flag wins, else the
    /// blanket shortcut means always, else ask.
    pub open spec fn spec_create_dirs(self) -> Action {
        match self.create_dirs {
            Some(a) => a,
            None => if self.never_prompt {
                Action::Always
            } else {
                Action::Ask
            },
        }
    }

    /// Mode for link creation: either always-create flag forces always,
    /// else ask.
    pub open spec fn spec_create_links(self) -> Action {
        if self.always_create_links || self.never_prompt {
            Action::Always
        } else {
            Action::Ask
        }
    }

    /// Directory renames are prompted for unless the blanket shortcut is
    /// set without the explicit override.
    pub open spec fn spec_ask_to_rename_dirs(self) -> bool {
        !self.never_prompt || self.ask_to_rename_dirs
    }

    /// Link renames are prompted for unless the blanket shortcut is set
    /// without the explicit override.
    pub open spec fn spec_ask_to_rename_links(self) -> bool {
        !self.never_prompt || self.ask_to_rename_links
    }

    /// The whole policy, resolved once.
    pub open spec fn spec_policy(self) -> WalkPolicy {
        WalkPolicy {
            link_creation: self.spec_create_links(),
            dir_creation: self.spec_create_dirs(),
            recursion: self.spec_recurse(),
            ask_rename_links: self.spec_ask_to_rename_links(),
            ask_rename_dirs: self.spec_ask_to_rename_dirs(),
            use_symlink: self.symbolic,
        }
    }

    pub fn recurse(&self) -> (a: Action)
        ensures
            a == self.spec_recurse(),
    {
        match self.recurse {
            Some(a) => a,
            None => if self.never_prompt {
                Action::Always
            } else {
                Action::Ask
            },
        }
    }

    pub fn create_dirs(&self) -> (a: Action)
        ensures
            a == self.spec_create_dirs(),
    {
        match self.create_dirs {
            Some(a) => a,
            None => if self.never_prompt {
                Action::Always
            } else {
                Action::Ask
            },
        }
    }

    pub fn create_links(&self) -> (a: Action)
        ensures
            a == self.spec_create_links(),
    {
        if self.always_create_links || self.never_prompt {
            Action::Always
        } else {
            Action::Ask
        }
    }

    pub fn ask_to_rename_dirs(&self) -> (b: bool)
        ensures
            b == self.spec_ask_to_rename_dirs(),
    {
        !self.never_prompt || self.ask_to_rename_dirs
    }

    pub fn ask_to_rename_links(&self) -> (b: bool)
        ensures
            b == self.spec_ask_to_rename_links(),
    {
        !self.never_prompt || self.ask_to_rename_links
    }

    pub fn symbolic(&self) -> (b: bool)
        ensures
            b == self.symbolic,
    {
        self.symbolic
    }

    /// Resolve the raw flags into the immutable policy the walk runs under.
    pub fn policy(&self) -> (p: WalkPolicy)
        ensures
            p == self.spec_policy(),
    {
        WalkPolicy {
            link_creation: self.create_links(),
            dir_creation: self.create_dirs(),
            recursion: self.recurse(),
            ask_rename_links: self.ask_to_rename_links(),
            ask_rename_dirs: self.ask_to_rename_dirs(),
            use_symlink: self.symbolic,
        }
    }
}

} // verus!
