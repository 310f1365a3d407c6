//! How the keeper gets namespaces of its own: what it does, in which order, and
//! what a failure ends.
use vstd::prelude::*;

use crate::text::{decimal_digits, digits, text2, text3};

verus! {

/// A file of the process that sets up its namespaces, and what is written there.
#[derive(Debug)]
pub struct ProcWrite {
    pub path: &'static str,
    pub contents: String,
}

/// Paths and contents, in order.
pub open spec fn writes_view(writes: Seq<ProcWrite>) -> Seq<(Seq<char>, Seq<char>)> {
    writes.map_values(|write: ProcWrite| (write.path@, write.contents@))
}

/// What maps a user or group to the root of the namespace.
pub open spec fn root_map(id: u32) -> Seq<char> {
    "0 "@ + digits(id as nat) + " 1\n"@
}

/// What is written once the process has a user namespace of its own: groups are
/// given up unless the user is the root, and then the user and the group become
/// the root's.
pub open spec fn user_namespace_writes(uid: u32, gid: u32) -> Seq<(Seq<char>, Seq<char>)> {
    let maps = seq![
        ("/proc/self/uid_map"@, root_map(uid)),
        ("/proc/self/gid_map"@, root_map(gid)),
    ];
    if uid != 0 {
        seq![("/proc/self/setgroups"@, "deny\n"@)] + maps
    } else {
        maps
    }
}

/// What is written once the process has a user namespace of its own.
pub fn namespace_writes(uid: u32, gid: u32) -> (r: Vec<ProcWrite>)
    ensures
        writes_view(r@) == user_namespace_writes(uid, gid),
{
    let mut writes: Vec<ProcWrite> = Vec::new();
    if uid != 0 {
        writes.push(ProcWrite { path: "/proc/self/setgroups", contents: "deny\n".to_owned() });
    }
    writes.push(
        ProcWrite {
            path: "/proc/self/uid_map",
            contents: text3("0 ", decimal_digits(uid as u64).as_str(), " 1\n"),
        },
    );
    writes.push(
        ProcWrite {
            path: "/proc/self/gid_map",
            contents: text3("0 ", decimal_digits(gid as u64).as_str(), " 1\n"),
        },
    );
    proof {
        assert(writes_view(writes@) =~= user_namespace_writes(uid, gid));
    }
    writes
}

/// Why the keeper could not get namespaces of its own.
#[derive(Debug)]
pub enum NamespaceFailure {
    User,
    /// A file could not be written.
    Write { path: &'static str },
    MountAndProcess,
    Fork,
}

impl NamespaceFailure {
    /// What a user is told.
    pub open spec fn text(self) -> Seq<char> {
        match self {
            NamespaceFailure::User => "unshare(CLONE_NEWUSER) failed"@,
            NamespaceFailure::Write { path } => "failed to write "@ + path@,
            NamespaceFailure::MountAndProcess => "unshare(CLONE_NEWNS | CLONE_NEWPID) failed"@,
            NamespaceFailure::Fork => "fork() failed after entering runner namespaces"@,
        }
    }

    /// What a user is told.
    pub fn message(&self) -> (r: String)
        ensures
            r@ == self.text(),
    {
        match self {
            NamespaceFailure::User => "unshare(CLONE_NEWUSER) failed".to_owned(),
            NamespaceFailure::Write { path } => text2("failed to write ", path),
            NamespaceFailure::MountAndProcess => "unshare(CLONE_NEWNS | CLONE_NEWPID) failed".to_owned(),
            NamespaceFailure::Fork => "fork() failed after entering runner namespaces".to_owned(),
        }
    }
}

/// A step of the keeper on its way into namespaces of its own.
#[derive(Debug)]
pub enum NamespaceStep {
    /// To enter a user namespace.
    UnshareUser,
    /// To write a file.
    Write(ProcWrite),
    /// To enter a mount namespace, and to have children in a process namespace.
    UnshareMountAndProcess,
    /// To start the child that goes on as the keeper.
    Fork,
}

/// A step of the keeper on its way into namespaces of its own.
pub enum NamespaceStepView {
    UnshareUser,
    Write { path: Seq<char>, contents: Seq<char> },
    UnshareMountAndProcess,
    Fork,
}

impl View for NamespaceStep {
    type V = NamespaceStepView;

    open spec fn view(&self) -> NamespaceStepView {
        match self {
            NamespaceStep::UnshareUser => NamespaceStepView::UnshareUser,
            NamespaceStep::Write(write) => NamespaceStepView::Write {
                path: write.path@,
                contents: write.contents@,
            },
            NamespaceStep::UnshareMountAndProcess => NamespaceStepView::UnshareMountAndProcess,
            NamespaceStep::Fork => NamespaceStepView::Fork,
        }
    }
}

pub open spec fn namespace_steps_view(steps: Seq<NamespaceStep>) -> Seq<NamespaceStepView> {
    steps.map_values(|step: NamespaceStep| step@)
}

impl NamespaceStepView {
    /// What a user is told where the step fails.
    pub open spec fn failure_text(self) -> Seq<char> {
        match self {
            NamespaceStepView::UnshareUser => "unshare(CLONE_NEWUSER) failed"@,
            NamespaceStepView::Write { path, .. } => "failed to write "@ + path,
            NamespaceStepView::UnshareMountAndProcess =>
                "unshare(CLONE_NEWNS | CLONE_NEWPID) failed"@,
            NamespaceStepView::Fork => "fork() failed after entering runner namespaces"@,
        }
    }
}

/// The steps of the keeper: first the user namespace, then what is written there,
/// then the mount and process namespaces, and at last the child.
pub open spec fn entry_steps(uid: u32, gid: u32) -> Seq<NamespaceStepView> {
    let writes = user_namespace_writes(uid, gid);
    seq![NamespaceStepView::UnshareUser] + Seq::new(
        writes.len(),
        |i: int| NamespaceStepView::Write { path: writes[i].0, contents: writes[i].1 },
    ) + seq![NamespaceStepView::UnshareMountAndProcess, NamespaceStepView::Fork]
}

/// What is ahead after the first of the steps ahead has succeeded or failed, and
/// what a user is told then: a failure ends the entry.
pub open spec fn entry_step(ahead: Seq<NamespaceStepView>, succeeded: bool) -> (
    Seq<NamespaceStepView>,
    Option<Seq<char>>,
) {
    if ahead.len() == 0 {
        (ahead, None)
    } else if succeeded {
        (ahead.drop_first(), None)
    } else {
        (Seq::empty(), Some(ahead[0].failure_text()))
    }
}

/// The keeper on its way into namespaces of its own.
#[derive(Debug)]
pub struct KeeperEntry {
    steps: Vec<NamespaceStep>,
    done: usize,
}

impl KeeperEntry {
    #[verifier::type_invariant]
    spec fn in_bounds(self) -> bool {
        self.done <= self.steps@.len()
    }

    /// The steps that are ahead.
    pub closed spec fn ahead(self) -> Seq<NamespaceStepView> {
        namespace_steps_view(self.steps@).skip(self.done as int)
    }

    /// The step that is to be taken now, if one is left.
    pub fn next_step(&self) -> (r: Option<&NamespaceStep>)
        ensures
            r is Some == (self.ahead().len() > 0),
            r matches Some(step) ==> step@ == self.ahead()[0],
    {
        proof {
            use_type_invariant(self);
        }
        if self.done < self.steps.len() {
            Some(&self.steps[self.done])
        } else {
            None
        }
    }

    /// Takes note of what came of the step, which ends the entry if it failed.
    pub fn step_ended(&mut self, succeeded: bool) -> (r: Result<(), NamespaceFailure>)
        ensures
            final(self).ahead() == entry_step(old(self).ahead(), succeeded).0,
            match r {
                Ok(_) => entry_step(old(self).ahead(), succeeded).1 is None,
                Err(failure) => entry_step(old(self).ahead(), succeeded).1 == Some(failure.text()),
            },
    {
        proof {
            use_type_invariant(&*self);
        }
        if self.done == self.steps.len() {
            return Ok(());
        }
        let ghost views = namespace_steps_view(self.steps@);
        let ghost before = self.ahead();
        let done: usize = self.done;
        proof {
            assert(before[0] == self.steps@[done as int]@);
        }
        if succeeded {
            self.done = done + 1;
            proof {
                assert(self.ahead() =~= before.drop_first());
            }
            Ok(())
        } else {
            let failure = self.steps[done].failure();
            self.done = self.steps.len();
            proof {
                assert(self.ahead() =~= Seq::empty());
            }
            Err(failure)
        }
    }
}

impl NamespaceStep {
    /// What the failure of the step is.
    pub fn failure(&self) -> (r: NamespaceFailure)
        ensures
            r.text() == self@.failure_text(),
    {
        match self {
            NamespaceStep::UnshareUser => NamespaceFailure::User,
            NamespaceStep::Write(write) => NamespaceFailure::Write { path: write.path },
            NamespaceStep::UnshareMountAndProcess => NamespaceFailure::MountAndProcess,
            NamespaceStep::Fork => NamespaceFailure::Fork,
        }
    }
}

/// The way of a process of the given user and group into namespaces of its own.
pub fn enter_keeper_context(uid: u32, gid: u32) -> (r: KeeperEntry)
    ensures
        r.ahead() == entry_steps(uid, gid),
{
    let mut steps: Vec<NamespaceStep> = Vec::new();
    steps.push(NamespaceStep::UnshareUser);
    let mut writes = namespace_writes(uid, gid);
    let ghost all = writes@;
    let ghost views = entry_steps(uid, gid);
    proof {
        assert(writes_view(all).len() == all.len());
        assert(namespace_steps_view(steps@) =~= views.take(1));
    }
    while writes.len() > 0
        invariant
            writes@.len() <= all.len(),
            writes@ == all.skip(all.len() - writes@.len()),
            writes_view(all) == user_namespace_writes(uid, gid),
            views == entry_steps(uid, gid),
            views.len() == all.len() + 3,
            namespace_steps_view(steps@) == views.take(1 + all.len() - writes@.len()),
        decreases writes@.len(),
    {
        let ghost k = all.len() - writes@.len();
        let ghost before = steps@;
        let write = writes.remove(0);
        proof {
            assert(write == all[k]);
            assert(writes_view(all)[k] == (write.path@, write.contents@));
        }
        steps.push(NamespaceStep::Write(write));
        proof {
            assert(writes@ =~= all.skip(k + 1));
            assert(namespace_steps_view(steps@) =~= namespace_steps_view(before).push(
                views[1 + k],
            ));
            assert(namespace_steps_view(steps@) =~= views.take(2 + k));
        }
    }
    let ghost before = steps@;
    steps.push(NamespaceStep::UnshareMountAndProcess);
    steps.push(NamespaceStep::Fork);
    proof {
        assert(namespace_steps_view(before) == views.take(views.len() - 2));
        assert(namespace_steps_view(steps@) =~= namespace_steps_view(before)
            + views.skip(views.len() - 2));
        assert(namespace_steps_view(steps@) =~= views);
        assert(namespace_steps_view(steps@).skip(0) =~= views);
    }
    KeeperEntry { steps, done: 0 }
}

/// The steps that are taken, and what a user is told at the end if one fails;
/// `succeeds` tells which steps succeed, of which the next is the `turn`-th.
pub open spec fn entered(
    ahead: Seq<NamespaceStepView>,
    succeeds: spec_fn(int) -> bool,
    turn: int,
) -> (Seq<NamespaceStepView>, Option<Seq<char>>)
    decreases ahead.len(),
{
    if ahead.len() == 0 {
        (Seq::empty(), None)
    } else {
        let (left, failure) = entry_step(ahead, succeeds(turn));
        if left.len() < ahead.len() && failure is None {
            let (taken, end) = entered(left, succeeds, turn + 1);
            (seq![ahead[0]] + taken, end)
        } else {
            (seq![ahead[0]], failure)
        }
    }
}

/// Where no step fails, every step is taken, in order.
pub proof fn entry_takes_every_step(
    ahead: Seq<NamespaceStepView>,
    succeeds: spec_fn(int) -> bool,
    turn: int,
)
    requires
        forall|i: int| turn <= i < turn + ahead.len() ==> #[trigger] succeeds(i),
    ensures
        entered(ahead, succeeds, turn) == (ahead, None::<Seq<char>>),
    decreases ahead.len(),
{
    if ahead.len() > 0 {
        entry_takes_every_step(ahead.drop_first(), succeeds, turn + 1);
        assert(succeeds(turn));
        assert(seq![ahead[0]] + ahead.drop_first() =~= ahead);
    } else {
        assert(ahead =~= Seq::empty());
    }
}

/// A step that fails is the last that is taken, and its failure is told.
pub proof fn failure_ends_the_entry(
    ahead: Seq<NamespaceStepView>,
    succeeds: spec_fn(int) -> bool,
    turn: int,
    failing: int,
)
    requires
        0 <= failing < ahead.len(),
        forall|i: int| turn <= i < turn + failing ==> #[trigger] succeeds(i),
        !succeeds(turn + failing),
    ensures
        entered(ahead, succeeds, turn) == (
            ahead.take(failing + 1),
            Some(ahead[failing].failure_text()),
        ),
    decreases ahead.len(),
{
    if failing == 0 {
        assert(ahead.take(1) =~= seq![ahead[0]]);
    } else {
        assert(succeeds(turn));
        let rest = ahead.drop_first();
        failure_ends_the_entry(rest, succeeds, turn + 1, failing - 1);
        assert(seq![ahead[0]] + rest.take(failing) =~= ahead.take(failing + 1));
    }
}

/// The user namespace comes first, the files are written in it, the mount and
/// process namespaces follow, and the one fork is the last step of all.
pub proof fn fork_comes_last(uid: u32, gid: u32)
    ensures
        ({
            let steps = entry_steps(uid, gid);
            let last = steps.len() - 1;
            forall|i: int|
                0 <= i <= last ==> match #[trigger] steps[i] {
                    NamespaceStepView::UnshareUser => i == 0,
                    NamespaceStepView::Write { .. } => 0 < i < last - 1,
                    NamespaceStepView::UnshareMountAndProcess => i == last - 1,
                    NamespaceStepView::Fork => i == last,
                }
        }),
{
}

/// Where a step before the fork fails, there is no fork.
pub proof fn no_fork_after_a_failure(
    uid: u32,
    gid: u32,
    succeeds: spec_fn(int) -> bool,
    failing: int,
)
    requires
        0 <= failing < entry_steps(uid, gid).len() - 1,
        forall|i: int| 0 <= i < failing ==> #[trigger] succeeds(i),
        !succeeds(failing),
    ensures
        ({
            let (taken, failure) = entered(entry_steps(uid, gid), succeeds, 0);
            &&& failure == Some(entry_steps(uid, gid)[failing].failure_text())
            &&& taken == entry_steps(uid, gid).take(failing + 1)
            &&& forall|i: int| 0 <= i < taken.len() ==> !(#[trigger] taken[i] is Fork)
        }),
{
    let steps = entry_steps(uid, gid);
    failure_ends_the_entry(steps, succeeds, 0, failing);
    fork_comes_last(uid, gid);
    let taken = steps.take(failing + 1);
    assert forall|i: int| 0 <= i < taken.len() implies !(#[trigger] taken[i] is Fork) by {
        assert(taken[i] == steps[i]);
    }
}

/// The user and the group become the root's, in that order; a user other than the
/// root gives up the right to set groups before, and nothing else is written.
pub proof fn user_and_group_are_mapped(uid: u32, gid: u32)
    ensures
        ({
            let steps = entry_steps(uid, gid);
            let deny = NamespaceStepView::Write {
                path: "/proc/self/setgroups"@,
                contents: "deny\n"@,
            };
            let user = NamespaceStepView::Write {
                path: "/proc/self/uid_map"@,
                contents: "0 "@ + digits(uid as nat) + " 1\n"@,
            };
            let group = NamespaceStepView::Write {
                path: "/proc/self/gid_map"@,
                contents: "0 "@ + digits(gid as nat) + " 1\n"@,
            };
            let first = NamespaceStepView::UnshareUser;
            let second = NamespaceStepView::UnshareMountAndProcess;
            let last = NamespaceStepView::Fork;
            &&& uid == 0 ==> steps == seq![first, user, group, second, last]
            &&& uid != 0 ==> steps == seq![first, deny, user, group, second, last]
        }),
{
    let steps = entry_steps(uid, gid);
    let deny = NamespaceStepView::Write { path: "/proc/self/setgroups"@, contents: "deny\n"@ };
    let user = NamespaceStepView::Write {
        path: "/proc/self/uid_map"@,
        contents: "0 "@ + digits(uid as nat) + " 1\n"@,
    };
    let group = NamespaceStepView::Write {
        path: "/proc/self/gid_map"@,
        contents: "0 "@ + digits(gid as nat) + " 1\n"@,
    };
    let first = NamespaceStepView::UnshareUser;
    let second = NamespaceStepView::UnshareMountAndProcess;
    let last = NamespaceStepView::Fork;
    if uid == 0 {
        assert(steps =~= seq![first, user, group, second, last]);
    } else {
        assert(steps =~= seq![first, deny, user, group, second, last]);
    }
}

/// The steps that are ahead lose the first once it has succeeded, and all once it
/// has failed, which is told.
pub proof fn steps_ahead(first: NamespaceStepView, rest: Seq<NamespaceStepView>)
    ensures
        entry_step(seq![first] + rest, true) == (rest, None::<Seq<char>>),
        entry_step(seq![first] + rest, false).0.len() == 0,
        entry_step(seq![first] + rest, false).1 == Some(
            match first {
                NamespaceStepView::UnshareUser => "unshare(CLONE_NEWUSER) failed"@,
                NamespaceStepView::Write { path, .. } => "failed to write "@ + path,
                NamespaceStepView::UnshareMountAndProcess =>
                    "unshare(CLONE_NEWNS | CLONE_NEWPID) failed"@,
                NamespaceStepView::Fork => "fork() failed after entering runner namespaces"@,
            },
        ),
{
    assert((seq![first] + rest).drop_first() =~= rest);
}

} // verus!
