use vstd::prelude::*;

use crate::sync::{
    step_spec, Action, ConflictResolver, DirContent, Event, Link, Reply, Stage, TargetKind,
    LinkError, requests,
};
use crate::text::join;

verus! {

/// What stands at one path of the destination directory.
pub ghost enum Slot {
    /// Nothing.
    Absent,
    /// A file, directory or other object; `id` stands for its contents.
    Object { kind: TargetKind, id: int },
    /// A symbolic link holding the path `to`; `kind` is what it resolves to
    /// (`Other` when it dangles).
    Symlink { to: Seq<char>, kind: TargetKind },
}

/// What the caller finds at a path holding `slot`.
pub open spec fn observe(slot: Slot) -> TargetKind {
    match slot {
        Slot::Absent => TargetKind::Missing,
        Slot::Object { kind, .. } => kind,
        Slot::Symlink { kind, .. } => kind,
    }
}

/// What a link to an object of kind `kind` resolves to: a link to nothing
/// dangles.
pub open spec fn resolves_as(kind: TargetKind) -> TargetKind {
    if kind == TargetKind::Missing {
        TargetKind::Other
    } else {
        kind
    }
}

/// How a request ended: what stands at its destination afterwards, and its
/// result (`None` while it still waits for an answer of the operator).
pub ghost struct Outcome {
    pub slot: Slot,
    pub result: Option<Result<(), LinkError>>,
}

/// How many more non-asking actions can follow `action` at most.
pub open spec fn rank(action: Action) -> nat {
    match action {
        Action::Ask | Action::AskAgain => 3,
        Action::RemoveFile | Action::RemoveDir => 2,
        Action::CreateLink => 1,
        _ => 0,
    }
}

/// Carries on a request from `stage` and its pending `action` against a
/// filesystem that does what it is asked: a link is created exactly where
/// nothing stands, and a removal leaves nothing behind. The operator gives
/// `answers` in order. The link points to `src`, an object of kind `src_kind`.
pub open spec fn carry_on(
    policy: ConflictResolver,
    src: Seq<char>,
    src_kind: TargetKind,
    stage: Stage,
    action: Action,
    slot: Slot,
    answers: Seq<Reply>,
) -> Outcome
    decreases answers.len(), rank(action),
{
    match action {
        Action::Finish => Outcome { slot, result: Some(Ok(())) },
        Action::Fail(e) => Outcome { slot, result: Some(Err(e)) },
        Action::Ask | Action::AskAgain => if answers.len() == 0 {
            Outcome { slot, result: None }
        } else {
            let (next, todo) = step_spec(policy, stage, Event::Answered(answers[0]));
            carry_on(policy, src, src_kind, next, todo, slot, answers.drop_first())
        },
        Action::CreateLink => {
            let ok = slot is Absent;
            let after = if ok {
                Slot::Symlink { to: src, kind: resolves_as(src_kind) }
            } else {
                slot
            };
            let (next, todo) = step_spec(policy, stage, Event::Created(ok));
            carry_on(policy, src, src_kind, next, todo, after, answers)
        },
        Action::RemoveFile | Action::RemoveDir => {
            let (next, todo) = step_spec(policy, stage, Event::Removed);
            carry_on(policy, src, src_kind, next, todo, Slot::Absent, answers)
        },
    }
}

/// The whole of one request on a destination holding `slot`.
pub open spec fn resolve(
    policy: ConflictResolver,
    src: Seq<char>,
    src_kind: TargetKind,
    slot: Slot,
    answers: Seq<Reply>,
) -> Outcome {
    let (stage, action) = step_spec(policy, Stage::Start, Event::Observed(observe(slot)));
    carry_on(policy, src, src_kind, stage, action, slot, answers)
}

/// A missing destination gets the link under every policy.
pub proof fn lemma_missing_gets_link(
    policy: ConflictResolver,
    src: Seq<char>,
    src_kind: TargetKind,
    answers: Seq<Reply>,
)
    ensures
        resolve(policy, src, src_kind, Slot::Absent, answers) == (Outcome {
            slot: Slot::Symlink { to: src, kind: resolves_as(src_kind) },
            result: Some(Ok(())),
        }),
{
    reveal_with_fuel(carry_on, 2);
}

/// Under `DoNothing` an existing destination is kept as it is.
pub proof fn lemma_do_nothing_keeps(src: Seq<char>, src_kind: TargetKind, slot: Slot, answers: Seq<Reply>)
    requires
        !(slot is Absent),
    ensures
        resolve(ConflictResolver::DoNothing, src, src_kind, slot, answers).slot == slot,
{
    reveal_with_fuel(carry_on, 2);
}

/// Under `Overwrite` a file or a directory at the destination is replaced by
/// the link.
pub proof fn lemma_overwrite_replaces(src: Seq<char>, src_kind: TargetKind, slot: Slot, answers: Seq<Reply>)
    requires
        observe(slot) == TargetKind::File || observe(slot) == TargetKind::Dir,
    ensures
        resolve(ConflictResolver::Overwrite, src, src_kind, slot, answers) == (Outcome {
            slot: Slot::Symlink { to: src, kind: resolves_as(src_kind) },
            result: Some(Ok(())),
        }),
{
    reveal_with_fuel(carry_on, 3);
}

/// Under `Overwrite`, a second request for the same link leaves the
/// destination as the first one left it.
pub proof fn lemma_overwrite_idempotent(src: Seq<char>, src_kind: TargetKind, slot: Slot)
    ensures
        resolve(
            ConflictResolver::Overwrite,
            src,
            src_kind,
            resolve(ConflictResolver::Overwrite, src, src_kind, slot, seq![]).slot,
            seq![],
        ).slot == resolve(ConflictResolver::Overwrite, src, src_kind, slot, seq![]).slot,
{
    reveal_with_fuel(carry_on, 3);
}

/// Answering no to the question leaves the existing destination as it is.
pub proof fn lemma_prompt_no_keeps(
    src: Seq<char>,
    src_kind: TargetKind,
    slot: Slot,
    rest: Seq<Reply>,
)
    requires
        observe(slot) != TargetKind::Missing,
    ensures
        resolve(ConflictResolver::Prompt, src, src_kind, slot, seq![Reply::No] + rest) == (Outcome {
            slot,
            result: Some(Ok(())),
        }),
{
    reveal_with_fuel(carry_on, 2);
}

/// Answering yes to the question overwrites, as the `Overwrite` policy does.
pub proof fn lemma_prompt_yes_overwrites(
    src: Seq<char>,
    src_kind: TargetKind,
    slot: Slot,
    rest: Seq<Reply>,
)
    requires
        observe(slot) != TargetKind::Missing,
    ensures
        resolve(ConflictResolver::Prompt, src, src_kind, slot, seq![Reply::Yes] + rest)
            == resolve(ConflictResolver::Overwrite, src, src_kind, slot, rest),
{
    let answers = seq![Reply::Yes] + rest;
    assert(answers[0] == Reply::Yes);
    assert(answers.drop_first() =~= rest);
    reveal_with_fuel(carry_on, 4);
}

/// What stands at `path` of the destination `dest`.
pub open spec fn slot_at(dest: Map<Seq<char>, Slot>, path: Seq<char>) -> Slot {
    if dest.contains_key(path) {
        dest[path]
    } else {
        Slot::Absent
    }
}

/// The kind of the source object at `path`; `Missing` if there is none.
pub open spec fn kind_at(sources: Map<Seq<char>, TargetKind>, path: Seq<char>) -> TargetKind {
    if sources.contains_key(path) {
        sources[path]
    } else {
        TargetKind::Missing
    }
}

/// The request `link` carried out on the destination `dest`, with no answer
/// of the operator at hand.
pub open spec fn outcome_of(
    link: Link,
    sources: Map<Seq<char>, TargetKind>,
    dest: Map<Seq<char>, Slot>,
) -> Outcome {
    resolve(link.resolver, link.src@, kind_at(sources, link.src@), slot_at(dest, link.target@), seq![])
}

/// The destination after the requests `links`, carried out in order.
pub open spec fn run_links(
    links: Seq<Link>,
    sources: Map<Seq<char>, TargetKind>,
    dest: Map<Seq<char>, Slot>,
) -> Map<Seq<char>, Slot>
    decreases links.len(),
{
    if links.len() == 0 {
        dest
    } else {
        let before = run_links(links.drop_last(), sources, dest);
        before.insert(links.last().target@, outcome_of(links.last(), sources, before).slot)
    }
}

/// Whether no two of `links` share a destination.
pub open spec fn distinct_targets(links: Seq<Link>) -> bool {
    forall|i: int, j: int|
        0 <= i < links.len() && 0 <= j < links.len() && i != j ==> links[i].target@ != links[j].target@
}

/// With distinct destinations, each request acts on its own destination as
/// it stood before the run, and nothing else changes.
pub proof fn lemma_run_links(links: Seq<Link>, sources: Map<Seq<char>, TargetKind>, dest: Map<Seq<char>, Slot>)
    requires
        distinct_targets(links),
    ensures
        forall|i: int| 0 <= i < links.len() ==> slot_at(run_links(links, sources, dest), #[trigger] links[i].target@)
            == outcome_of(links[i], sources, dest).slot,
        forall|p: Seq<char>| (forall|i: int| 0 <= i < links.len() ==> links[i].target@ != p)
            ==> slot_at(run_links(links, sources, dest), p) == slot_at(dest, p),
    decreases links.len(),
{
    if links.len() > 0 {
        let init = links.drop_last();
        let last = links.last();
        assert forall|i: int, j: int|
            0 <= i < init.len() && 0 <= j < init.len() && i != j implies init[i].target@ != init[j].target@ by {
            assert(init[i] == links[i]);
            assert(init[j] == links[j]);
        }
        lemma_run_links(init, sources, dest);
        let before = run_links(init, sources, dest);
        assert forall|i: int| 0 <= i < init.len() implies last.target@ != #[trigger] init[i].target@ by {
            assert(init[i] == links[i]);
            assert(last == links[links.len() - 1]);
        }
        assert(slot_at(before, last.target@) == slot_at(dest, last.target@));
        assert forall|i: int| 0 <= i < links.len() implies slot_at(run_links(links, sources, dest), #[trigger] links[i].target@)
            == outcome_of(links[i], sources, dest).slot by {
            if i < links.len() - 1 {
                assert(init[i] == links[i]);
            }
        }
        assert forall|p: Seq<char>| (forall|i: int| 0 <= i < links.len() ==> links[i].target@ != p)
            implies slot_at(run_links(links, sources, dest), p) == slot_at(dest, p) by {
            assert(links[links.len() - 1].target@ != p);
            assert forall|i: int| 0 <= i < init.len() implies init[i].target@ != p by {
                assert(init[i] == links[i]);
            }
        }
    }
}

/// Two entries of one directory with different names have different paths.
proof fn lemma_join_injective(dir: Seq<char>, a: Seq<char>, b: Seq<char>)
    requires
        join(dir, a) == join(dir, b),
    ensures
        a == b,
{
    let head = join(dir, seq![]);
    assert(join(dir, a) =~= head + a);
    assert(join(dir, b) =~= head + b);
    assert(a =~= (head + a).subrange(head.len() as int, (head + a).len() as int));
    assert(b =~= (head + b).subrange(head.len() as int, (head + b).len() as int));
}

/// Whether `links` are the requests of `content` for the entries `names`,
/// which are distinct, as the names in one directory are.
pub open spec fn requests_for(content: DirContent, names: Seq<Seq<char>>, links: Seq<Link>) -> bool {
    &&& links.len() == names.len()
    &&& forall|i: int| 0 <= i < names.len() ==> #[trigger] requests(content, names[i], links[i])
    &&& forall|i: int, j: int| 0 <= i < names.len() && 0 <= j < names.len() && i != j ==> names[i] != names[j]
}

/// The requests for the entries of one directory have distinct destinations.
proof fn lemma_requests_distinct(content: DirContent, names: Seq<Seq<char>>, links: Seq<Link>)
    requires
        requests_for(content, names, links),
    ensures
        distinct_targets(links),
{
    assert forall|i: int, j: int|
        0 <= i < links.len() && 0 <= j < links.len() && i != j implies links[i].target@ != links[j].target@ by {
        assert(requests(content, names[i], links[i]));
        assert(requests(content, names[j], links[j]));
        if links[i].target@ == links[j].target@ {
            lemma_join_injective(content.dir@, names[i], names[j]);
        }
    }
}

/// The link that the request for entry `name` of `content` leaves when it
/// succeeds.
pub open spec fn link_to_entry(content: DirContent, sources: Map<Seq<char>, TargetKind>, name: Seq<char>) -> Slot {
    Slot::Symlink {
        to: join(content.source@, name),
        kind: resolves_as(kind_at(sources, join(content.source@, name))),
    }
}

/// Under `DoNothing`, where no destination exists yet, every entry of the
/// source directory ends up linked from its destination, the link holding
/// the entry's source path.
pub proof fn law_links_every_entry(
    content: DirContent,
    names: Seq<Seq<char>>,
    links: Seq<Link>,
    sources: Map<Seq<char>, TargetKind>,
    dest: Map<Seq<char>, Slot>,
)
    requires
        content.resolver == ConflictResolver::DoNothing,
        requests_for(content, names, links),
        forall|i: int| 0 <= i < names.len() ==> slot_at(dest, #[trigger] join(content.dir@, names[i])) is Absent,
    ensures
        forall|i: int| 0 <= i < names.len() ==> slot_at(run_links(links, sources, dest), #[trigger] join(content.dir@, names[i]))
            == link_to_entry(content, sources, names[i]),
{
    lemma_requests_distinct(content, names, links);
    lemma_run_links(links, sources, dest);
    assert forall|i: int| 0 <= i < names.len() implies slot_at(run_links(links, sources, dest), #[trigger] join(content.dir@, names[i]))
        == link_to_entry(content, sources, names[i]) by {
        assert(requests(content, names[i], links[i]));
        lemma_missing_gets_link(links[i].resolver, links[i].src@, kind_at(sources, links[i].src@), seq![]);
    }
}

/// Under `DoNothing`, every destination that already exists is left as it was.
pub proof fn law_keeps_existing(
    content: DirContent,
    names: Seq<Seq<char>>,
    links: Seq<Link>,
    sources: Map<Seq<char>, TargetKind>,
    dest: Map<Seq<char>, Slot>,
)
    requires
        content.resolver == ConflictResolver::DoNothing,
        requests_for(content, names, links),
    ensures
        forall|i: int| 0 <= i < names.len() && !(slot_at(dest, #[trigger] join(content.dir@, names[i])) is Absent)
            ==> slot_at(run_links(links, sources, dest), join(content.dir@, names[i]))
                == slot_at(dest, join(content.dir@, names[i])),
{
    lemma_requests_distinct(content, names, links);
    lemma_run_links(links, sources, dest);
    assert forall|i: int| 0 <= i < names.len() && !(slot_at(dest, #[trigger] join(content.dir@, names[i])) is Absent)
        implies slot_at(run_links(links, sources, dest), join(content.dir@, names[i]))
            == slot_at(dest, join(content.dir@, names[i])) by {
        assert(requests(content, names[i], links[i]));
        lemma_do_nothing_keeps(links[i].src@, kind_at(sources, links[i].src@), slot_at(dest, links[i].target@), seq![]);
    }
}

/// Under `Overwrite`, a regular file at a destination is replaced by the
/// link to the entry's source path: the file is gone.
pub proof fn law_overwrites_files(
    content: DirContent,
    names: Seq<Seq<char>>,
    links: Seq<Link>,
    sources: Map<Seq<char>, TargetKind>,
    dest: Map<Seq<char>, Slot>,
)
    requires
        content.resolver == ConflictResolver::Overwrite,
        requests_for(content, names, links),
    ensures
        forall|i: int| 0 <= i < names.len() && observe(slot_at(dest, #[trigger] join(content.dir@, names[i]))) == TargetKind::File
            ==> slot_at(run_links(links, sources, dest), join(content.dir@, names[i]))
                == link_to_entry(content, sources, names[i]),
{
    lemma_requests_distinct(content, names, links);
    lemma_run_links(links, sources, dest);
    assert forall|i: int| 0 <= i < names.len() && observe(slot_at(dest, #[trigger] join(content.dir@, names[i]))) == TargetKind::File
        implies slot_at(run_links(links, sources, dest), join(content.dir@, names[i]))
            == link_to_entry(content, sources, names[i]) by {
        assert(requests(content, names[i], links[i]));
        lemma_overwrite_replaces(links[i].src@, kind_at(sources, links[i].src@), slot_at(dest, links[i].target@), seq![]);
    }
}

/// Under `Overwrite`, a directory at a destination is replaced by the link
/// to the entry's source path: the directory and its contents are gone.
pub proof fn law_overwrites_directories(
    content: DirContent,
    names: Seq<Seq<char>>,
    links: Seq<Link>,
    sources: Map<Seq<char>, TargetKind>,
    dest: Map<Seq<char>, Slot>,
)
    requires
        content.resolver == ConflictResolver::Overwrite,
        requests_for(content, names, links),
    ensures
        forall|i: int| 0 <= i < names.len() && observe(slot_at(dest, #[trigger] join(content.dir@, names[i]))) == TargetKind::Dir
            ==> slot_at(run_links(links, sources, dest), join(content.dir@, names[i]))
                == link_to_entry(content, sources, names[i]),
{
    lemma_requests_distinct(content, names, links);
    lemma_run_links(links, sources, dest);
    assert forall|i: int| 0 <= i < names.len() && observe(slot_at(dest, #[trigger] join(content.dir@, names[i]))) == TargetKind::Dir
        implies slot_at(run_links(links, sources, dest), join(content.dir@, names[i]))
            == link_to_entry(content, sources, names[i]) by {
        assert(requests(content, names[i], links[i]));
        lemma_overwrite_replaces(links[i].src@, kind_at(sources, links[i].src@), slot_at(dest, links[i].target@), seq![]);
    }
}

/// Under `Overwrite`, a second run over the same entries leaves the
/// destination directory exactly as the first run left it.
pub proof fn law_overwrite_idempotent(
    content: DirContent,
    names: Seq<Seq<char>>,
    links: Seq<Link>,
    sources: Map<Seq<char>, TargetKind>,
    dest: Map<Seq<char>, Slot>,
)
    requires
        content.resolver == ConflictResolver::Overwrite,
        requests_for(content, names, links),
    ensures
        forall|p: Seq<char>| #[trigger] slot_at(run_links(links, sources, run_links(links, sources, dest)), p)
            == slot_at(run_links(links, sources, dest), p),
{
    lemma_requests_distinct(content, names, links);
    let once = run_links(links, sources, dest);
    lemma_run_links(links, sources, dest);
    lemma_run_links(links, sources, once);
    assert forall|p: Seq<char>| #[trigger] slot_at(run_links(links, sources, once), p) == slot_at(once, p) by {
        if exists|i: int| 0 <= i < links.len() && links[i].target@ == p {
            let i = choose|i: int| 0 <= i < links.len() && links[i].target@ == p;
            assert(requests(content, names[i], links[i]));
            lemma_overwrite_idempotent(links[i].src@, kind_at(sources, links[i].src@), slot_at(dest, p));
        }
    }
}

} // verus!
