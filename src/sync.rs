use vstd::prelude::*;

use crate::text::{join, join_path, lower_of, lowercase, same_text, trim, trimmed};

verus! {

/// How a destination path that already exists is handled.
#[derive(Clone, Copy, Debug, PartialEq, Eq, Structural)]
pub enum ConflictResolver {
    /// Ask the operator for each conflict.
    Prompt,
    /// Replace the existing object with the link.
    Overwrite,
    /// Leave the existing object alone.
    DoNothing,
}

/// The policy that a lowercase keyword names, if any.
pub open spec fn policy_of(keyword: Seq<char>) -> Option<ConflictResolver> {
    if keyword == "prompt"@ {
        Some(ConflictResolver::Prompt)
    } else if keyword == "overwrite"@ {
        Some(ConflictResolver::Overwrite)
    } else if keyword == "do_nothing"@ {
        Some(ConflictResolver::DoNothing)
    } else {
        None
    }
}

impl ConflictResolver {
    /// The policy named by an already lowercased keyword: `prompt`,
    /// `overwrite` or `do_nothing`.
    pub fn from_keyword(keyword: &str) -> (r: Option<ConflictResolver>)
        ensures
            r == policy_of(keyword@),
    {
        if same_text(keyword, "prompt") {
            Some(ConflictResolver::Prompt)
        } else if same_text(keyword, "overwrite") {
            Some(ConflictResolver::Overwrite)
        } else if same_text(keyword, "do_nothing") {
            Some(ConflictResolver::DoNothing)
        } else {
            None
        }
    }

    /// The policy named by `text` in any case: `prompt`, `overwrite` or
    /// `do_nothing`.
    pub fn from_str(text: &str) -> (r: Result<ConflictResolver, ()>)
        ensures
            r == match policy_of(lower_of(text@)) {
                Some(p) => Ok::<ConflictResolver, ()>(p),
                None => Err(()),
            },
    {
        let lowered = lowercase(text);
        match ConflictResolver::from_keyword(lowered.as_str()) {
            Some(p) => Ok(p),
            None => Err(()),
        }
    }
}

/// What the caller found at a destination path. Existence is checked without
/// following a link, so a dangling link exists; the file and directory checks
/// follow links.
#[derive(Clone, Copy, Debug, PartialEq, Eq, Structural)]
pub enum TargetKind {
    /// Nothing is there, not even a dangling link.
    Missing,
    /// A regular file, or a link to one.
    File,
    /// A directory, or a link to one.
    Dir,
    /// Something that exists and is neither: a dangling link, a socket, ...
    Other,
}

/// The operator's answer to the question whether to overwrite.
#[derive(Clone, Copy, Debug, PartialEq, Eq, Structural)]
pub enum Reply {
    Yes,
    No,
    Unrecognized,
}

/// The reply that a trimmed answer gives: `y` or `Y` is yes; `n`, `N` or
/// nothing is no; anything else is not understood.
pub open spec fn reply_of(answer: Seq<char>) -> Reply {
    if answer == "y"@ || answer == "Y"@ {
        Reply::Yes
    } else if answer == "n"@ || answer == "N"@ || answer.len() == 0 {
        Reply::No
    } else {
        Reply::Unrecognized
    }
}

impl Reply {
    /// The reply of an answer that has already been trimmed.
    pub fn from_trimmed(answer: &str) -> (r: Reply)
        ensures
            r == reply_of(answer@),
    {
        if same_text(answer, "y") || same_text(answer, "Y") {
            Reply::Yes
        } else if same_text(answer, "n") || same_text(answer, "N") || answer.unicode_len() == 0 {
            Reply::No
        } else {
            Reply::Unrecognized
        }
    }

    /// The reply of a line the operator typed, surrounding whitespace and
    /// the line break included.
    pub fn read(line: &str) -> (r: Reply)
        ensures
            r == reply_of(trimmed(line@)),
    {
        Reply::from_trimmed(trim(line))
    }
}

/// Why one link could not be placed. None of these stops the other links.
#[derive(Clone, Copy, Debug, PartialEq, Eq, Structural)]
pub enum LinkError {
    /// The link could not be created where nothing stood.
    LinkCreationFailed,
    /// The existing object is neither a file nor a directory; nothing was removed.
    UnsupportedTargetType,
    /// The existing object was removed but the link could not be created:
    /// the destination is now empty.
    OverwriteInconsistent,
}

/// Where the resolution of one link request stands.
#[derive(Clone, Copy, Debug, PartialEq, Eq, Structural)]
pub enum Stage {
    /// Waiting for what stands at the destination.
    Start,
    /// The operator was asked about the existing object of this kind.
    Asking(TargetKind),
    /// The existing object is being removed.
    Removing,
    /// The link is being created; `true` when an object was removed for it.
    Creating(bool),
    /// Nothing more to do.
    Done,
}

/// What the caller reports back after performing an action.
#[derive(Clone, Copy, Debug, PartialEq, Eq, Structural)]
pub enum Event {
    /// What stands at the destination (the first event of every request).
    Observed(TargetKind),
    /// The operator answered.
    Answered(Reply),
    /// The existing object was removed.
    Removed,
    /// The link was created (`true`) or creating it failed (`false`).
    Created(bool),
}

/// What the caller has to do next.
#[derive(Clone, Copy, Debug, PartialEq, Eq, Structural)]
pub enum Action {
    /// Create a link at the destination that points to the source.
    CreateLink,
    /// Ask the operator whether to overwrite the destination.
    Ask,
    /// Tell the operator the last answer was not understood, and ask again.
    AskAgain,
    /// Remove the regular file at the destination.
    RemoveFile,
    /// Remove the directory at the destination with all its contents.
    RemoveDir,
    /// The request is done.
    Finish,
    /// The request failed.
    Fail(LinkError),
}

/// Whether `event` is the kind of report that `stage` waits for.
pub open spec fn expects(stage: Stage, event: Event) -> bool {
    match stage {
        Stage::Start => event is Observed,
        Stage::Asking(_) => event is Answered,
        Stage::Removing => event is Removed,
        Stage::Creating(_) => event is Created,
        Stage::Done => false,
    }
}

/// The start of the overwrite procedure on an object of kind `kind`.
pub open spec fn overwrite_spec(kind: TargetKind) -> (Stage, Action) {
    match kind {
        TargetKind::File => (Stage::Removing, Action::RemoveFile),
        TargetKind::Dir => (Stage::Removing, Action::RemoveDir),
        _ => (Stage::Done, Action::Fail(LinkError::UnsupportedTargetType)),
    }
}

/// The decision taken on `event` in `stage` under `policy`.
pub open spec fn step_spec(policy: ConflictResolver, stage: Stage, event: Event) -> (Stage, Action) {
    match event {
        Event::Observed(kind) => if kind == TargetKind::Missing {
            (Stage::Creating(false), Action::CreateLink)
        } else {
            match policy {
                ConflictResolver::DoNothing => (Stage::Done, Action::Finish),
                ConflictResolver::Overwrite => overwrite_spec(kind),
                ConflictResolver::Prompt => (Stage::Asking(kind), Action::Ask),
            }
        },
        Event::Answered(reply) => {
            let kind = match stage {
                Stage::Asking(k) => k,
                _ => TargetKind::Other,
            };
            match reply {
                Reply::Yes => overwrite_spec(kind),
                Reply::No => (Stage::Done, Action::Finish),
                Reply::Unrecognized => (Stage::Asking(kind), Action::AskAgain),
            }
        },
        Event::Removed => (Stage::Creating(true), Action::CreateLink),
        Event::Created(ok) => if ok {
            (Stage::Done, Action::Finish)
        } else if stage == Stage::Creating(true) {
            (Stage::Done, Action::Fail(LinkError::OverwriteInconsistent))
        } else {
            (Stage::Done, Action::Fail(LinkError::LinkCreationFailed))
        },
    }
}

/// The overwrite procedure: remove a file or a directory, refuse anything else.
fn overwrite(kind: TargetKind) -> (r: (Stage, Action))
    ensures
        r == overwrite_spec(kind),
{
    match kind {
        TargetKind::File => (Stage::Removing, Action::RemoveFile),
        TargetKind::Dir => (Stage::Removing, Action::RemoveDir),
        _ => (Stage::Done, Action::Fail(LinkError::UnsupportedTargetType)),
    }
}

/// Decides the next action of one link request.
///
/// A request starts in `Stage::Start` with the kind of what stands at its
/// destination. A missing destination gets the link; an existing one is
/// handled by `policy`: left alone, overwritten, or put to the operator, who
/// is asked again until the answer is yes or no. Overwriting removes a file
/// or a directory and then creates the link; anything else fails without
/// removing it.
pub fn step(policy: ConflictResolver, stage: Stage, event: Event) -> (r: (Stage, Action))
    requires
        expects(stage, event),
    ensures
        r == step_spec(policy, stage, event),
{
    match event {
        Event::Observed(kind) => {
            if kind == TargetKind::Missing {
                (Stage::Creating(false), Action::CreateLink)
            } else {
                match policy {
                    ConflictResolver::DoNothing => (Stage::Done, Action::Finish),
                    ConflictResolver::Overwrite => overwrite(kind),
                    ConflictResolver::Prompt => (Stage::Asking(kind), Action::Ask),
                }
            }
        },
        Event::Answered(reply) => {
            let kind = match stage {
                Stage::Asking(k) => k,
                _ => TargetKind::Other,
            };
            match reply {
                Reply::Yes => overwrite(kind),
                Reply::No => (Stage::Done, Action::Finish),
                Reply::Unrecognized => (Stage::Asking(kind), Action::AskAgain),
            }
        },
        Event::Removed => (Stage::Creating(true), Action::CreateLink),
        Event::Created(ok) => {
            if ok {
                (Stage::Done, Action::Finish)
            } else if stage == Stage::Creating(true) {
                (Stage::Done, Action::Fail(LinkError::OverwriteInconsistent))
            } else {
                (Stage::Done, Action::Fail(LinkError::LinkCreationFailed))
            }
        },
    }
}

/// One link to place: a link at `target` that points to `src`.
#[derive(Clone, Debug)]
pub struct Link {
    pub src: String,
    pub target: String,
    pub resolver: ConflictResolver,
}

/// The link requests for the entries of one source directory: each entry
/// `name` of `source` is linked from `dir`/`name`. Subdirectories are linked
/// as a whole; nothing is entered.
#[derive(Clone, Debug)]
pub struct DirContent {
    pub source: String,
    pub dir: String,
    pub resolver: ConflictResolver,
}

/// The requests for linking the entries of `src` into `target`.
pub fn sync(src: &str, target: &str, resolver: ConflictResolver) -> (r: DirContent)
    ensures
        r.source@ == src@,
        r.dir@ == target@,
        r.resolver == resolver,
{
    DirContent { source: String::from_str(src), dir: String::from_str(target), resolver }
}

/// Whether `link` is the request for the entry `name` of `content`.
pub open spec fn requests(content: DirContent, name: Seq<char>, link: Link) -> bool {
    &&& link.src@ == join(content.source@, name)
    &&& link.target@ == join(content.dir@, name)
    &&& link.resolver == content.resolver
}

impl DirContent {
    /// The request for the entry `name` of the source directory.
    pub fn link_for(&self, name: &str) -> (r: Link)
        ensures
            requests(*self, name@, r),
    {
        Link {
            src: join_path(self.source.as_str(), name),
            target: join_path(self.dir.as_str(), name),
            resolver: self.resolver,
        }
    }

    /// The requests for the entries `names`, one each, in their order.
    pub fn links(&self, names: &Vec<String>) -> (r: Vec<Link>)
        ensures
            r@.len() == names@.len(),
            forall|i: int| 0 <= i < names@.len() ==> requests(*self, #[trigger] names@[i]@, r@[i]),
    {
        let mut r: Vec<Link> = Vec::new();
        let mut i: usize = 0;
        while i < names.len()
            invariant
                i <= names@.len(),
                r@.len() == i,
                forall|j: int| 0 <= j < i ==> requests(*self, #[trigger] names@[j]@, r@[j]),
            decreases names@.len() - i,
        {
            let link = self.link_for(names[i].as_str());
            r.push(link);
            i = i + 1;
        }
        r
    }
}

} // verus!
