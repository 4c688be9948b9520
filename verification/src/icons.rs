//! Symbolic names of the icons that events and sources are shown with.

use vstd::prelude::*;

verus! {

/// A reference to a presentation icon, by its symbolic name. The library
/// never looks inside the name: it only carries it to the presentation layer.
#[derive(PartialEq, Debug, Clone, Copy)]
pub struct Icon(&'static str);

impl Icon {
    /// The symbolic name, as contracts speak of it.
    pub closed spec fn spec_name(&self) -> &'static str {
        self.0
    }

    /// The symbolic name that the presentation layer looks the icon up by.
    pub fn name(&self) -> (r: &'static str)
        ensures
            r == self.spec_name(),
    {
        self.0
    }

    /// The icon that pages back to the previous day.
    pub fn angle_left() -> (r: Icon)
        ensures
            r.spec_name() == "angle-left-symbolic",
    {
        Icon("angle-left-symbolic")
    }

    /// The icon that pages forward to the next day.
    pub fn angle_right() -> (r: Icon)
        ensures
            r.spec_name() == "angle-right-symbolic",
    {
        Icon("angle-right-symbolic")
    }

    /// The icon that marks calendar entries.
    pub fn calendar_alt() -> (r: Icon)
        ensures
            r.spec_name() == "calendar-alt-symbolic",
    {
        Icon("calendar-alt-symbolic")
    }

    /// The icon that marks issue-tracker activity.
    pub fn tasks() -> (r: Icon)
        ensures
            r.spec_name() == "tasks-symbolic",
    {
        Icon("tasks-symbolic")
    }

    /// The icon that marks comments and code-review activity.
    pub fn comment_dots() -> (r: Icon)
        ensures
            r.spec_name() == "comment-dots-symbolic",
    {
        Icon("comment-dots-symbolic")
    }

    /// The icon that marks commits.
    pub fn code_branch() -> (r: Icon)
        ensures
            r.spec_name() == "code-branch-symbolic",
    {
        Icon("code-branch-symbolic")
    }

    /// The icon that marks emails.
    pub fn envelope() -> (r: Icon)
        ensures
            r.spec_name() == "envelope-symbolic",
    {
        Icon("envelope-symbolic")
    }

    /// The icon that marks votes.
    pub fn thumbs_up() -> (r: Icon)
        ensures
            r.spec_name() == "thumbs-up-symbolic",
    {
        Icon("thumbs-up-symbolic")
    }

    /// The icon that marks accepted or closed items.
    pub fn check_square() -> (r: Icon)
        ensures
            r.spec_name() == "check-square-symbolic",
    {
        Icon("check-square-symbolic")
    }

    /// The icon that copies text to the clipboard.
    pub fn copy() -> (r: Icon)
        ensures
            r.spec_name() == "copy-symbolic",
    {
        Icon("copy-symbolic")
    }

    /// The icon that opens the preferences.
    pub fn cog() -> (r: Icon)
        ensures
            r.spec_name() == "cog-symbolic",
    {
        Icon("cog-symbolic")
    }

    /// The icon that warns that something needs attention.
    pub fn exclamation_triangle() -> (r: Icon)
        ensures
            r.spec_name() == "exclamation-triangle-symbolic",
    {
        Icon("exclamation-triangle-symbolic")
    }

    /// The icon that stands for the application itself.
    pub fn app_icon() -> (r: Icon)
        ensures
            r.spec_name() == "com.github.emmanueltouzery.cigale",
    {
        Icon("com.github.emmanueltouzery.cigale")
    }
}

} // verus!
