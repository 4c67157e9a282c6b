use vstd::prelude::*;

verus! {

/// The view of an optional string.
pub open spec fn opt_view(o: Option<String>) -> Option<Seq<char>> {
    match o {
        Some(s) => Some(s@),
        None => None,
    }
}

/// The application remembered after seeing `frontmost` in front, when this
/// program is `own` and `last` was remembered before: the one in front,
/// unless there is none or it is this program.
pub open spec fn observed(own: Option<Seq<char>>, last: Option<Seq<char>>, frontmost: Option<Seq<char>>) -> Option<Seq<char>> {
    match frontmost {
        Some(f) => if own == Some(f) { last } else { Some(f) },
        None => last,
    }
}

/// Remembers the application the user last had in front, other than this
/// program itself, so that focus can be given back to it before pasting.
pub struct FocusTracker {
    own_app: Option<String>,
    last_focused: Option<String>,
}

impl FocusTracker {
    /// The bundle identifier of this program, if it has one.
    pub closed spec fn own_app_spec(&self) -> Option<Seq<char>> {
        opt_view(self.own_app)
    }

    /// The bundle identifier of the application last in front, if any.
    pub closed spec fn last_focused_spec(&self) -> Option<Seq<char>> {
        opt_view(self.last_focused)
    }

    /// A tracker for a program with bundle identifier `own_app`, having seen
    /// no application yet.
    pub fn new(own_app: Option<String>) -> (t: Self)
        ensures
            t.own_app_spec() == opt_view(own_app),
            t.last_focused_spec() is None,
    {
        FocusTracker { own_app, last_focused: None }
    }

    /// Takes note of the application in front (`None` when there is none or
    /// it has no bundle identifier). This program itself is never noted.
    pub fn observe(&mut self, frontmost: Option<String>)
        ensures
            final(self).own_app_spec() == old(self).own_app_spec(),
            final(self).last_focused_spec()
                == observed(old(self).own_app_spec(), old(self).last_focused_spec(), opt_view(frontmost)),
    {
        match frontmost {
            Some(front) => {
                let is_self = match &self.own_app {
                    Some(own) => own.eq(&front),
                    None => false,
                };
                if !is_self {
                    self.last_focused = Some(front);
                }
            },
            None => {},
        }
    }

    /// The bundle identifier of the application last in front, other than
    /// this program.
    pub fn last_focused_app(&self) -> (app: Option<String>)
        ensures
            opt_view(app) == self.last_focused_spec(),
    {
        match &self.last_focused {
            Some(s) => Some(s.clone()),
            None => None,
        }
    }
}

} // verus!
