//! The access that reading the graphics processor needs, and what puts it
//! right where it is missing.

use crate::text::{chars_of, contains, contains_chars, occurs_at, text_view};
use vstd::prelude::*;

verus! {

/// What was found when one of the preconditions was looked at.
#[derive(Debug, Clone, PartialEq, Eq)]
pub enum Finding {
    /// What the command that lists the user's groups printed; `None` where
    /// it could not be run.
    Groups(Option<String>),
    /// The text of the udev rules file; `None` where it could not be read.
    UdevRules(Option<String>),
    /// Whether debugfs is mounted.
    Debugfs { mounted: bool },
    /// The group that owns the power-management file, `None` where the file
    /// could not be looked at, and the group of the user.
    PmInfoOwner { file_gid: Option<u32>, user_gid: u32 },
}

/// The mathematical value of a `Finding`.
pub enum FindingView {
    Groups(Option<Seq<char>>),
    UdevRules(Option<Seq<char>>),
    Debugfs { mounted: bool },
    PmInfoOwner { file_gid: Option<u32>, user_gid: u32 },
}

impl View for Finding {
    type V = FindingView;

    open spec fn view(&self) -> FindingView {
        match self {
            Finding::Groups(output) => FindingView::Groups(text_view(*output)),
            Finding::UdevRules(content) => FindingView::UdevRules(text_view(*content)),
            Finding::Debugfs { mounted } => FindingView::Debugfs { mounted: *mounted },
            Finding::PmInfoOwner { file_gid, user_gid } => FindingView::PmInfoOwner {
                file_gid: *file_gid,
                user_gid: *user_gid,
            },
        }
    }
}

/// What puts a missing precondition right.
#[derive(Debug, Clone, Copy, PartialEq, Eq, Structural)]
pub enum Remedy {
    /// Add the user to the group `video`.
    JoinVideoGroup,
    /// Write the udev rules file and have the rules loaded again.
    InstallUdevRules,
    /// Mount debugfs.
    MountDebugfs,
    /// Hand the power-management file to the group `video`.
    ShareWithVideoGroup,
}

/// The remedy that a finding calls for, if it calls for one. The user joins
/// the group `video` where the groups could be listed and `video` is not
/// among them. The udev rules are written where the file cannot be read or
/// holds no rule for the card devices. Debugfs is mounted where it is not.
/// The power-management file is shared where it could be looked at and
/// belongs to another group than the user's.
pub open spec fn remedy_for(finding: FindingView) -> Option<Remedy> {
    match finding {
        FindingView::Groups(Some(output)) => if contains(output, "video"@) {
            None
        } else {
            Some(Remedy::JoinVideoGroup)
        },
        FindingView::Groups(None) => None,
        FindingView::UdevRules(Some(content)) => if contains(content, "KERNEL==\"card*\""@) {
            None
        } else {
            Some(Remedy::InstallUdevRules)
        },
        FindingView::UdevRules(None) => Some(Remedy::InstallUdevRules),
        FindingView::Debugfs { mounted } => if mounted {
            None
        } else {
            Some(Remedy::MountDebugfs)
        },
        FindingView::PmInfoOwner { file_gid: Some(gid), user_gid } => if gid != user_gid {
            Some(Remedy::ShareWithVideoGroup)
        } else {
            None
        },
        FindingView::PmInfoOwner { file_gid: None, user_gid } => None,
    }
}

/// Whether `text` holds `needle`.
fn holds(text: &str, needle: &str) -> (r: bool)
    ensures
        r == contains(text@, needle@),
{
    contains_chars(chars_of(text).as_slice(), chars_of(needle).as_slice())
}

/// Decides what, if anything, has to be done about a finding so that the
/// graphics processor can be read.
pub fn ensure_gpu_permissions(finding: &Finding) -> (r: Option<Remedy>)
    ensures
        r == remedy_for(finding@),
{
    match finding {
        Finding::Groups(Some(output)) => if holds(output.as_str(), "video") {
            None
        } else {
            Some(Remedy::JoinVideoGroup)
        },
        Finding::Groups(None) => None,
        Finding::UdevRules(Some(content)) => if holds(content.as_str(), "KERNEL==\"card*\"") {
            None
        } else {
            Some(Remedy::InstallUdevRules)
        },
        Finding::UdevRules(None) => Some(Remedy::InstallUdevRules),
        Finding::Debugfs { mounted } => if *mounted {
            None
        } else {
            Some(Remedy::MountDebugfs)
        },
        Finding::PmInfoOwner { file_gid: Some(gid), user_gid } => if *gid != *user_gid {
            Some(Remedy::ShareWithVideoGroup)
        } else {
            None
        },
        Finding::PmInfoOwner { file_gid: None, user_gid: _ } => None,
    }
}

/// The udev rules that give the group `video` access to the card devices.
pub open spec fn udev_rules_text() -> Seq<char> {
    "\n\
     # Allow all card* GPU devices to be accessed by users in the video group\n\
     KERNEL==\"card*\", GROUP=\"video\", MODE=\"0660\"\n\
     KERNEL==\"renderD*\", GROUP=\"video\", MODE=\"0660\"\n\
     SUBSYSTEM==\"drm\", GROUP=\"video\", MODE=\"0660\"\n"@
}

/// Once the udev rules are installed, the rules file calls for no remedy.
pub proof fn lemma_installed_rules_suffice()
    ensures
        remedy_for(FindingView::UdevRules(Some(udev_rules_text()))) is None,
{
    reveal_strlit(
        "\n\
         # Allow all card* GPU devices to be accessed by users in the video group\n\
         KERNEL==\"card*\", GROUP=\"video\", MODE=\"0660\"\n\
         KERNEL==\"renderD*\", GROUP=\"video\", MODE=\"0660\"\n\
         SUBSYSTEM==\"drm\", GROUP=\"video\", MODE=\"0660\"\n",
    );
    reveal_strlit("KERNEL==\"card*\"");
    let text = udev_rules_text();
    let needle = "KERNEL==\"card*\""@;
    assert(text.subrange(74, 74 + needle.len() as int) =~= needle);
    assert(occurs_at(text, needle, 74));
}

/// The udev rules that give the group `video` access to the card devices.
pub fn udev_rules() -> (r: &'static str)
    ensures
        r@ == udev_rules_text(),
{
    "\n\
     # Allow all card* GPU devices to be accessed by users in the video group\n\
     KERNEL==\"card*\", GROUP=\"video\", MODE=\"0660\"\n\
     KERNEL==\"renderD*\", GROUP=\"video\", MODE=\"0660\"\n\
     SUBSYSTEM==\"drm\", GROUP=\"video\", MODE=\"0660\"\n"
}

} // verus!
