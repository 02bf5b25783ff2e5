//! The client's side of the file synchronisation with the shim, as a state
//! machine: it asks for the remote listing, compares it with the local files,
//! skips, uploads, deletes, and sends deltas against the shim's signatures.
//! The caller performs the I/O that each action asks for and feeds back what
//! came of it.
use vstd::prelude::*;

use crate::client::{
    classify, classify_spec, deletions, deletions_spec, delta_message, delta_message_spec,
    has_path, lemma_deletions_sound,
    delta_reply, plan_view,
    sig_of, signature_for, take_listing, take_signature, upload_message, DeltaReply, Disposition,
    ListStep, SigStep,
};
use crate::ext::{b64_encode, gitignore_ignored, gitignored};
use crate::protocol::{Message, MessageView};
use crate::shim::{excluded, RemoteFile};
use crate::text::{chars_of, push_str, string_of};

verus! {

/// Where the synchronisation stands.
#[derive(Debug, Clone, Copy, PartialEq, Eq, Structural)]
pub enum SyncPhase {
    /// Nothing done yet.
    Start,
    /// Reading the remote listing.
    Listing,
    /// Waiting for the local files.
    Local,
    /// `SKIP` of plan entry `i` sent; waiting for the reply.
    PlanSkip { i: usize },
    /// Waiting for the data of plan entry `i`, a new file.
    PlanRead { i: usize },
    /// `DATA` of plan entry `i` sent; waiting for the reply.
    PlanData { i: usize },
    /// Waiting for the lines of the local `.gitignore`, to filter the
    /// deletion candidates.
    Filter,
    /// `DELETE` of doomed path `j` sent; waiting for the reply.
    Deleting { j: usize },
    /// Reading the signatures.
    Sigs,
    /// Waiting for the data of changed file `k`.
    DeltaRead { k: usize },
    /// `DELTA` of changed file `k` sent; waiting for the reply.
    DeltaReply { k: usize },
    /// Waiting for the data of changed file `k`, to upload it whole.
    FallbackRead { k: usize },
    /// `DATA` of changed file `k` sent; waiting for the reply.
    FallbackReply { k: usize },
    /// `END_SYNC` sent; waiting for the reply.
    Ending,
    /// Synchronised.
    Finished,
    /// Stopped on an error.
    Failed,
}

/// What the caller hands to the state machine.
#[derive(Debug)]
pub enum SyncEvent {
    /// Start the synchronisation.
    Begin,
    /// A message from the shim.
    Reply(Message),
    /// The local files (relative path, size, modification time).
    LocalFiles(Vec<RemoteFile>),
    /// The content of the file asked for, or why it could not be read.
    FileData(Result<Vec<u8>, String>),
    /// The lines of the local `.gitignore`.
    Gitignore(Vec<String>),
}

/// What the caller does next.
#[derive(Debug)]
pub enum SyncAction {
    /// Send these messages in order, then receive one and hand it back.
    Request(Vec<Message>),
    /// Receive one message and hand it back.
    Receive,
    /// List the local files and hand them back.
    ListLocal,
    /// Read this local file and hand back its content.
    Read(String),
    /// The shim could not apply the delta of `path` (`reason`): read the
    /// file again and hand back its content, to upload it whole.
    Reupload { path: String, reason: String },
    /// Read the local `.gitignore` and hand back its lines; a failure to
    /// read it ends the synchronisation.
    ReadGitignore,
    /// Synchronised.
    Done,
    /// The shim sent `msg` where something else was due; `prefix` says what.
    Unexpected { prefix: String, msg: Message },
    /// The synchronisation failed.
    Fail(String),
}

/// The synchronisation state.
pub struct ClientSync {
    pub phase: SyncPhase,
    /// The remote listing, in the order received.
    pub remote: Vec<RemoteFile>,
    /// The local files.
    pub local: Vec<RemoteFile>,
    /// Each local path once, with how it compares with the remote listing.
    pub plan: Vec<(String, Disposition)>,
    /// The changed paths, in plan order.
    pub changed: Vec<String>,
    /// The remote paths to delete.
    pub doomed: Vec<String>,
    /// The signatures received.
    pub sigs: Vec<(String, String)>,
}

/// The changed paths of a plan, in order.
pub open spec fn changed_of(plan: Seq<(Seq<char>, Disposition)>) -> Seq<Seq<char>>
    decreases plan.len(),
{
    if plan.len() == 0 {
        Seq::empty()
    } else if plan.last().1 == Disposition::Changed {
        changed_of(plan.drop_last()).push(plan.last().0)
    } else {
        changed_of(plan.drop_last())
    }
}

/// The first plan entry from `i` on that is not a changed file.
pub open spec fn next_upload(plan: Seq<(Seq<char>, Disposition)>, i: int) -> int
    decreases plan.len() - i,
{
    if i < 0 || i >= plan.len() {
        plan.len() as int
    } else if plan[i].1 == Disposition::Changed {
        next_upload(plan, i + 1)
    } else {
        i
    }
}

/// The first changed file from `k` on for which a signature arrived.
pub open spec fn next_signed(changed: Seq<Seq<char>>, sigs: Seq<(String, String)>, k: int) -> int
    decreases changed.len() - k,
{
    if k < 0 || k >= changed.len() {
        changed.len() as int
    } else if sig_of(sigs, changed[k]) is None {
        next_signed(changed, sigs, k + 1)
    } else {
        k
    }
}

/// A request of exactly one message.
pub open spec fn one_request(a: SyncAction, m: MessageView) -> bool {
    a matches SyncAction::Request(v) && v@.len() == 1 && v@[0]@ == m
}

/// `new` holds the same listings, plan and lists as `old`.
pub open spec fn keeps(old: ClientSync, new: ClientSync) -> bool {
    &&& new.remote@ == old.remote@
    &&& new.local@ == old.local@
    &&& new.plan@ == old.plan@
    &&& new.changed@ == old.changed@
    &&& new.doomed@ == old.doomed@
    &&& new.sigs@ == old.sigs@
}

/// Going on with the plan from entry `i`: skip the next unchanged file or read
/// the next new one; after the plan, filter the deletion candidates.
pub open spec fn plan_next(s: ClientSync, i: int, phase: SyncPhase, a: SyncAction) -> bool {
    let pv = plan_view(s.plan@);
    let n = next_upload(pv, i);
    if n < pv.len() {
        if pv[n].1 == Disposition::Same {
            phase == (SyncPhase::PlanSkip { i: n as usize }) && one_request(
                a,
                MessageView::Skip { path: pv[n].0 },
            )
        } else {
            phase == (SyncPhase::PlanRead { i: n as usize }) && (a matches SyncAction::Read(p) && p@
                == pv[n].0
        )}
    } else {
        phase == SyncPhase::Filter && a is ReadGitignore
    }
}

/// The deletion candidates that the `.gitignore` lines do not ignore, in
/// order; or the first error the matcher reports.
pub open spec fn gitignore_keep(cands: Seq<Seq<char>>, lines: Seq<Seq<char>>) -> Result<
    Seq<Seq<char>>,
    Seq<char>,
>
    decreases cands.len(),
{
    if cands.len() == 0 {
        Ok(Seq::empty())
    } else {
        match gitignore_keep(cands.drop_last(), lines) {
            Err(e) => Err(e),
            Ok(kept) => match gitignore_ignored(lines, cands.last()) {
                Err(e) => Err(e),
                Ok(true) => Ok(kept),
                Ok(false) => Ok(kept.push(cands.last())),
            },
        }
    }
}

/// Going on with the deletions from `j`; after them, end at once when no file
/// changed, else ask for the signatures of the changed files.
pub open spec fn delete_next(s: ClientSync, j: int, phase: SyncPhase, a: SyncAction) -> bool {
    if j < s.doomed@.len() {
        phase == (SyncPhase::Deleting { j: j as usize }) && one_request(
            a,
            MessageView::Delete { path: s.doomed@[j]@ },
        )
    } else if s.changed@.len() == 0 {
        phase == SyncPhase::Ending && one_request(a, MessageView::EndSync)
    } else {
        phase == SyncPhase::Sigs && (a matches SyncAction::Request(v) && v@.len() == s.changed@.len()
            + 1 && (forall|t: int|
            0 <= t < s.changed@.len() ==> (#[trigger] v@[t])@ == (MessageView::DeltaRequest {
                path: s.changed@[t]@,
            })) && v@[s.changed@.len() as int]@ == MessageView::EndSigsRequest
    )}
}

/// Going on with the changed files from `k`: read the next one that has a
/// signature; after them, end.
pub open spec fn delta_next(s: ClientSync, k: int, phase: SyncPhase, a: SyncAction) -> bool {
    let n = next_signed(s.changed.deep_view(), s.sigs@, k);
    if n < s.changed@.len() {
        phase == (SyncPhase::DeltaRead { k: n as usize }) && (a matches SyncAction::Read(p) && p@
            == s.changed@[n]@
    )} else {
        phase == SyncPhase::Ending && one_request(a, MessageView::EndSync)
    }
}

/// The shim answered with an error: the synchronisation stops and reports
/// the shim's message.
pub open spec fn refused(m: MessageView, phase: SyncPhase, a: SyncAction) -> bool {
    m matches MessageView::Error { msg } && phase == SyncPhase::Failed && (a matches SyncAction::Fail(
        t,
    ) && t@ == msg)
}

/// The failure when a file is too large to encode for an upload.
pub open spec fn too_large(a: SyncAction, path: Seq<char>) -> bool {
    a matches SyncAction::Fail(t) && t@ == "cannot encode "@ + path + ": too large"@
}

/// The failure when an event comes that the phase does not wait for.
pub open spec fn out_of_order(a: SyncAction) -> bool {
    a matches SyncAction::Fail(e) && e@ == "synchronisation event out of order"@
}

/// One step of the synchronisation.
pub open spec fn sync_step(old: ClientSync, e: SyncEvent, new: ClientSync, a: SyncAction) -> bool {
    match (old.phase, e) {
        (SyncPhase::Start, SyncEvent::Begin) => keeps(old, new) && new.phase == SyncPhase::Listing
            && one_request(a, MessageView::List),
        (SyncPhase::Listing, SyncEvent::Reply(m)) => match m@ {
            MessageView::File { path, size, mtime } => new.remote@.len() == old.remote@.len() + 1
                && new.remote@.drop_last() == old.remote@ && new.remote@.last().path@ == path
                && new.remote@.last().size == size && new.remote@.last().mtime == mtime
                && new.phase == SyncPhase::Listing && a is Receive,
            MessageView::EndList => keeps(old, new) && new.phase == SyncPhase::Local
                && a is ListLocal,
            _ => keeps(old, new) && new.phase == SyncPhase::Failed && (a matches SyncAction::Unexpected {
                prefix,
                msg,
            } && prefix@ == "expected FILE/END_LIST, got "@ && msg@ == m@),
        },
        (SyncPhase::Local, SyncEvent::LocalFiles(files)) => new.remote@ == old.remote@ && new.local@
            == files@ && plan_view(new.plan@) == classify_spec(old.remote@, files@)
            && new.changed.deep_view() == changed_of(plan_view(new.plan@)) && plan_next(
            new,
            0,
            new.phase,
            a,
        ),
        (SyncPhase::PlanSkip { i }, SyncEvent::Reply(m)) => keeps(old, new) && if m@ is Error {
            refused(m@, new.phase, a)
        } else {
            plan_next(old, i + 1, new.phase, a)
        },
        (SyncPhase::PlanRead { i }, SyncEvent::FileData(d)) => keeps(old, new) && match d {
            Err(err) => new.phase == SyncPhase::Failed && (a matches SyncAction::Fail(t) && t@
                == err@),
            Ok(data) => if data@.len() > usize::MAX / 4 {
                new.phase == SyncPhase::Failed && too_large(a, old.plan@[i as int].0@)
            } else {
                new.phase == (SyncPhase::PlanData { i }) && one_request(
                    a,
                    MessageView::Data { path: old.plan@[i as int].0@, data: b64_encode(data@) },
                )
            },
        },
        (SyncPhase::PlanData { i }, SyncEvent::Reply(m)) => keeps(old, new) && if m@ is Error {
            refused(m@, new.phase, a)
        } else {
            plan_next(old, i + 1, new.phase, a)
        },
        (SyncPhase::Filter, SyncEvent::Gitignore(lines)) => match gitignore_keep(
            deletions_spec(old.remote@, old.local@),
            lines.deep_view(),
        ) {
            Ok(kept) => new.remote@ == old.remote@ && new.local@ == old.local@ && new.plan@
                == old.plan@ && new.changed@ == old.changed@ && new.sigs@ == old.sigs@
                && new.doomed.deep_view() == kept && delete_next(new, 0, new.phase, a),
            Err(e) => keeps(old, new) && new.phase == SyncPhase::Failed && (a matches SyncAction::Fail(
                t,
            ) && t@ == "failed to parse .gitignore: "@ + e),
        },
        (SyncPhase::Deleting { j }, SyncEvent::Reply(m)) => keeps(old, new) && if m@ is Error {
            refused(m@, new.phase, a)
        } else {
            delete_next(old, j + 1, new.phase, a)
        },
        (SyncPhase::Sigs, SyncEvent::Reply(m)) => match m@ {
            MessageView::Sig { path, sig } => new.sigs@.len() == old.sigs@.len() + 1
                && new.sigs@.drop_last() == old.sigs@ && new.sigs@.last().0@ == path
                && new.sigs@.last().1@ == sig && new.phase == SyncPhase::Sigs && a is Receive,
            MessageView::EndSigs => keeps(old, new) && delta_next(old, 0, new.phase, a),
            _ => keeps(old, new) && new.phase == SyncPhase::Failed && (a matches SyncAction::Unexpected {
                prefix,
                msg,
            } && prefix@ == "unexpected during SIGS: "@ && msg@ == m@),
        },
        (SyncPhase::DeltaRead { k }, SyncEvent::FileData(d)) => keeps(old, new) && match d {
            Err(err) => new.phase == SyncPhase::Failed && (a matches SyncAction::Fail(t) && t@
                == err@),
            Ok(data) => {
                let sig = sig_of(old.sigs@, old.changed@[k as int]@)->Some_0;
                match delta_message_spec(old.changed@[k as int]@, sig, data@) {
                    None => new.phase == SyncPhase::Failed && (a matches SyncAction::Fail(t)
                        && t@ == "cannot compute a delta for "@ + old.changed@[k as int]@),
                    Some(Err(err)) => new.phase == SyncPhase::Failed && (a matches SyncAction::Fail(
                        t,
                    ) && t@ == err),
                    Some(Ok(mv)) => new.phase == (SyncPhase::DeltaReply { k }) && one_request(
                        a,
                        mv,
                    ),
                }
            },
        },
        (SyncPhase::DeltaReply { k }, SyncEvent::Reply(m)) => keeps(old, new) && match m@ {
            MessageView::Okay => delta_next(old, k + 1, new.phase, a),
            MessageView::Error { msg } => new.phase == (SyncPhase::FallbackRead { k })
                && (a matches SyncAction::Reupload { path, reason } && path@ == old.changed@[k as int]@
                && reason@ == msg),
            _ => new.phase == SyncPhase::Failed && (a matches SyncAction::Unexpected {
                prefix,
                msg,
            } && prefix@ == "unexpected response to DELTA: "@ && msg@ == m@),
        },
        (SyncPhase::FallbackRead { k }, SyncEvent::FileData(d)) => keeps(old, new) && match d {
            Err(err) => new.phase == SyncPhase::Failed && (a matches SyncAction::Fail(t) && t@
                == err@),
            Ok(data) => if data@.len() > usize::MAX / 4 {
                new.phase == SyncPhase::Failed && too_large(a, old.changed@[k as int]@)
            } else {
                new.phase == (SyncPhase::FallbackReply { k }) && one_request(
                    a,
                    MessageView::Data { path: old.changed@[k as int]@, data: b64_encode(data@) },
                )
            },
        },
        (SyncPhase::FallbackReply { k }, SyncEvent::Reply(m)) => keeps(old, new) && if m@ is Error {
            refused(m@, new.phase, a)
        } else {
            delta_next(old, k + 1, new.phase, a)
        },
        (SyncPhase::Ending, SyncEvent::Reply(m)) => keeps(old, new) && if m@ is Error {
            refused(m@, new.phase, a)
        } else {
            new.phase == SyncPhase::Finished && a is Done
        },
        _ => keeps(old, new) && new.phase == SyncPhase::Failed && out_of_order(a),
    }
}

/// An error in the filtering of a prefix of the candidates is the error of
/// the whole filtering.
proof fn lemma_keep_err_extends(cands: Seq<Seq<char>>, lines: Seq<Seq<char>>, k: int)
    requires
        0 <= k <= cands.len(),
        gitignore_keep(cands.take(k), lines) is Err,
    ensures
        gitignore_keep(cands, lines) == gitignore_keep(cands.take(k), lines),
    decreases cands.len() - k,
{
    if k < cands.len() {
        assert(cands.take(k + 1).drop_last() == cands.take(k));
        lemma_keep_err_extends(cands, lines, k + 1);
    } else {
        assert(cands.take(k) == cands);
    }
}

/// Every path the filtering keeps is one of the candidates, and the
/// `.gitignore` lines do not ignore it.
proof fn lemma_keep_sound(cands: Seq<Seq<char>>, lines: Seq<Seq<char>>, i: int)
    requires
        gitignore_keep(cands, lines) is Ok,
        0 <= i < gitignore_keep(cands, lines)->Ok_0.len(),
    ensures
        cands.contains(gitignore_keep(cands, lines)->Ok_0[i]),
        gitignore_ignored(lines, gitignore_keep(cands, lines)->Ok_0[i]) == Ok::<bool, Seq<char>>(
            false,
        ),
    decreases cands.len(),
{
    let kept = gitignore_keep(cands.drop_last(), lines)->Ok_0;
    if i < kept.len() {
        lemma_keep_sound(cands.drop_last(), lines, i);
        let j = choose|j: int| 0 <= j < cands.drop_last().len() && cands.drop_last()[j] == kept[i];
        assert(cands[j] == kept[i]);
    } else {
        assert(cands[cands.len() - 1] == cands.last());
    }
}

/// Every candidate that the `.gitignore` lines do not ignore is kept.
pub proof fn lemma_keep_complete(cands: Seq<Seq<char>>, lines: Seq<Seq<char>>, j: int)
    requires
        gitignore_keep(cands, lines) is Ok,
        0 <= j < cands.len(),
        gitignore_ignored(lines, cands[j]) == Ok::<bool, Seq<char>>(false),
    ensures
        gitignore_keep(cands, lines)->Ok_0.contains(cands[j]),
    decreases cands.len(),
{
    let d = cands.drop_last();
    let kept = gitignore_keep(d, lines)->Ok_0;
    if j < d.len() {
        assert(d[j] == cands[j]);
        lemma_keep_complete(d, lines, j);
        let i = choose|i: int| 0 <= i < kept.len() && kept[i] == cands[j];
        let all = gitignore_keep(cands, lines)->Ok_0;
        assert(all[i] == kept[i]);
    } else {
        assert(cands.last() == cands[j]);
        let all = gitignore_keep(cands, lines)->Ok_0;
        assert(all[all.len() - 1] == cands[j]);
    }
}

/// Every `DELETE` the synchronisation sends names a remote path that is not
/// a local path, is not one that listings leave out (such as `.git` or
/// `target`), and is not ignored by the `.gitignore` lines.
pub proof fn lemma_deleted_paths_sound(
    remote: Seq<RemoteFile>,
    local: Seq<RemoteFile>,
    lines: Seq<Seq<char>>,
    i: int,
)
    requires
        gitignore_keep(deletions_spec(remote, local), lines) is Ok,
        0 <= i < gitignore_keep(deletions_spec(remote, local), lines)->Ok_0.len(),
    ensures
        ({
            let p = gitignore_keep(deletions_spec(remote, local), lines)->Ok_0[i];
            &&& has_path(remote, p)
            &&& !has_path(local, p)
            &&& !excluded(p)
            &&& gitignore_ignored(lines, p) == Ok::<bool, Seq<char>>(false)
        }),
{
    let c = deletions_spec(remote, local);
    lemma_keep_sound(c, lines, i);
    let p = gitignore_keep(c, lines)->Ok_0[i];
    let j = choose|j: int| 0 <= j < c.len() && c[j] == p;
    lemma_deletions_sound(remote, local, j);
}

impl ClientSync {
    /// What holds of the state between steps.
    pub open spec fn wf(&self) -> bool {
        let pv = plan_view(self.plan@);
        &&& self.changed.deep_view() == changed_of(pv)
        &&& match self.phase {
            SyncPhase::PlanSkip { i } => i < pv.len(),
            SyncPhase::PlanRead { i } => i < pv.len(),
            SyncPhase::PlanData { i } => i < pv.len(),
            SyncPhase::Deleting { j } => j < self.doomed@.len(),
            SyncPhase::DeltaRead { k } => k < self.changed@.len() && sig_of(
                self.sigs@,
                self.changed@[k as int]@,
            ) is Some,
            SyncPhase::DeltaReply { k } => k < self.changed@.len(),
            SyncPhase::FallbackRead { k } => k < self.changed@.len(),
            SyncPhase::FallbackReply { k } => k < self.changed@.len(),
            _ => true,
        }
    }

    /// A synchronisation that has not started.
    pub fn new() -> (s: ClientSync)
        ensures
            s.phase == SyncPhase::Start,
            s.remote@.len() == 0,
            s.local@.len() == 0,
            s.plan@.len() == 0,
            s.doomed@.len() == 0,
            s.sigs@.len() == 0,
            s.wf(),
    {
        let s = ClientSync {
            phase: SyncPhase::Start,
            remote: Vec::new(),
            local: Vec::new(),
            plan: Vec::new(),
            changed: Vec::new(),
            doomed: Vec::new(),
            sigs: Vec::new(),
        };
        assert(plan_view(s.plan@) =~= Seq::<(Seq<char>, Disposition)>::empty());
        assert(s.changed.deep_view() =~= Seq::<Seq<char>>::empty());
        s
    }

    fn advance_plan(&mut self, i: usize) -> (a: SyncAction)
        requires
            i <= old(self).plan@.len(),
            old(self).changed.deep_view() == changed_of(plan_view(old(self).plan@)),
        ensures
            keeps(*old(self), *final(self)),
            plan_next(*old(self), i as int, final(self).phase, a),
            final(self).wf(),
    {
        let ghost pv = plan_view(self.plan@);
        let mut n: usize = i;
        while n < self.plan.len() && self.plan[n].1 == Disposition::Changed
            invariant
                i <= n <= self.plan@.len(),
                pv == plan_view(self.plan@),
                next_upload(pv, i as int) == next_upload(pv, n as int),
            decreases self.plan.len() - n,
        {
            assert(pv[n as int].1 == self.plan@[n as int].1);
            n = n + 1;
        }
        if n < self.plan.len() {
            assert(pv[n as int] == (self.plan@[n as int].0@, self.plan@[n as int].1));
            if self.plan[n].1 == Disposition::Same {
                self.phase = SyncPhase::PlanSkip { i: n };
                let mut v: Vec<Message> = Vec::new();
                v.push(Message::Skip { path: self.plan[n].0.clone() });
                SyncAction::Request(v)
            } else {
                self.phase = SyncPhase::PlanRead { i: n };
                SyncAction::Read(self.plan[n].0.clone())
            }
        } else {
            self.phase = SyncPhase::Filter;
            SyncAction::ReadGitignore
        }
    }

    /// The deletion candidates that the `.gitignore` lines do not ignore.
    fn keep_unignored(&self, lines: &Vec<String>) -> (r: Result<Vec<String>, String>)
        ensures
            match gitignore_keep(deletions_spec(self.remote@, self.local@), lines.deep_view()) {
                Ok(kept) => r matches Ok(v) && v.deep_view() == kept,
                Err(e) => r matches Err(t) && t@ == e,
            },
    {
        let cands = deletions(&self.remote, &self.local);
        let ghost cv = cands.deep_view();
        let mut kept: Vec<String> = Vec::new();
        let mut i: usize = 0;
        assert(cv.take(0) =~= Seq::<Seq<char>>::empty());
        assert(kept.deep_view() =~= Seq::<Seq<char>>::empty());
        while i < cands.len()
            invariant
                i <= cands.len(),
                cv == cands.deep_view(),
                cv == deletions_spec(self.remote@, self.local@),
                gitignore_keep(cv.take(i as int), lines.deep_view()) == Ok::<
                    Seq<Seq<char>>,
                    Seq<char>,
                >(kept.deep_view()),
            decreases cands.len() - i,
        {
            assert(cv.take(i + 1).drop_last() == cv.take(i as int));
            assert(cv.take(i + 1).last() == cands@[i as int]@);
            match gitignored(lines, cands[i].as_str()) {
                Err(e) => {
                    proof {
                        assert(gitignore_keep(cv.take(i + 1), lines.deep_view()) == Err::<
                            Seq<Seq<char>>,
                            Seq<char>,
                        >(e@));
                        lemma_keep_err_extends(cv, lines.deep_view(), i as int + 1);
                    }
                    return Err(e);
                },
                Ok(true) => {},
                Ok(false) => {
                    let ghost before = kept.deep_view();
                    kept.push(cands[i].clone());
                    assert(kept.deep_view() == before.push(cands@[i as int]@));
                },
            }
            i = i + 1;
        }
        assert(cv.take(cands.len() as int) == cv);
        Ok(kept)
    }

    fn advance_delete(&mut self, j: usize) -> (a: SyncAction)
        requires
            j <= old(self).doomed@.len(),
            old(self).changed.deep_view() == changed_of(plan_view(old(self).plan@)),
        ensures
            keeps(*old(self), *final(self)),
            delete_next(*old(self), j as int, final(self).phase, a),
            final(self).wf(),
    {
        if j < self.doomed.len() {
            self.phase = SyncPhase::Deleting { j };
            let mut v: Vec<Message> = Vec::new();
            v.push(Message::Delete { path: self.doomed[j].clone() });
            return SyncAction::Request(v);
        }
        if self.changed.len() == 0 {
            self.phase = SyncPhase::Ending;
            let mut v: Vec<Message> = Vec::new();
            v.push(Message::EndSync);
            return SyncAction::Request(v);
        }
        self.phase = SyncPhase::Sigs;
        let mut v: Vec<Message> = Vec::new();
        let mut t: usize = 0;
        while t < self.changed.len()
            invariant
                t <= self.changed@.len(),
                v@.len() == t,
                forall|u: int|
                    0 <= u < t ==> (#[trigger] v@[u])@ == (MessageView::DeltaRequest {
                        path: self.changed@[u]@,
                    }),
            decreases self.changed.len() - t,
        {
            v.push(Message::DeltaRequest { path: self.changed[t].clone() });
            t = t + 1;
        }
        v.push(Message::EndSigsRequest);
        SyncAction::Request(v)
    }

    fn advance_delta(&mut self, k: usize) -> (a: SyncAction)
        requires
            k <= old(self).changed@.len(),
            old(self).changed.deep_view() == changed_of(plan_view(old(self).plan@)),
        ensures
            keeps(*old(self), *final(self)),
            delta_next(*old(self), k as int, final(self).phase, a),
            final(self).wf(),
    {
        let ghost cv = self.changed.deep_view();
        let mut n: usize = k;
        while n < self.changed.len() && signature_for(&self.sigs, self.changed[n].as_str()).is_none()
            invariant
                k <= n <= self.changed@.len(),
                cv == self.changed.deep_view(),
                next_signed(cv, self.sigs@, k as int) == next_signed(cv, self.sigs@, n as int),
            decreases self.changed.len() - n,
        {
            assert(cv[n as int] == self.changed@[n as int]@);
            n = n + 1;
        }
        if n < self.changed.len() {
            assert(cv[n as int] == self.changed@[n as int]@);
            self.phase = SyncPhase::DeltaRead { k: n };
            SyncAction::Read(self.changed[n].clone())
        } else {
            self.phase = SyncPhase::Ending;
            let mut v: Vec<Message> = Vec::new();
            v.push(Message::EndSync);
            SyncAction::Request(v)
        }
    }

    fn out_of_order(&mut self) -> (a: SyncAction)
        requires
            old(self).changed.deep_view() == changed_of(plan_view(old(self).plan@)),
        ensures
            keeps(*old(self), *final(self)),
            final(self).phase == SyncPhase::Failed,
            out_of_order(a),
            final(self).wf(),
    {
        self.phase = SyncPhase::Failed;
        SyncAction::Fail(string_of(&chars_of("synchronisation event out of order")))
    }

    fn unexpected(&mut self, prefix: &str, msg: Message) -> (a: SyncAction)
        requires
            old(self).changed.deep_view() == changed_of(plan_view(old(self).plan@)),
        ensures
            keeps(*old(self), *final(self)),
            final(self).phase == SyncPhase::Failed,
            a matches SyncAction::Unexpected { prefix: p, msg: m } && p@ == prefix@ && m@ == msg@,
            final(self).wf(),
    {
        self.phase = SyncPhase::Failed;
        SyncAction::Unexpected { prefix: string_of(&chars_of(prefix)), msg }
    }

    fn fail(&mut self, e: String) -> (a: SyncAction)
        requires
            old(self).changed.deep_view() == changed_of(plan_view(old(self).plan@)),
        ensures
            keeps(*old(self), *final(self)),
            final(self).phase == SyncPhase::Failed,
            a matches SyncAction::Fail(t) && t@ == e@,
            final(self).wf(),
    {
        self.phase = SyncPhase::Failed;
        SyncAction::Fail(e)
    }

    fn set_plan(&mut self, files: Vec<RemoteFile>)
        ensures
            final(self).remote@ == old(self).remote@,
            final(self).local@ == files@,
            plan_view(final(self).plan@) == classify_spec(old(self).remote@, files@),
            final(self).changed.deep_view() == changed_of(plan_view(final(self).plan@)),
            final(self).doomed@ == old(self).doomed@,
            final(self).sigs@ == old(self).sigs@,
            final(self).phase == old(self).phase,
    {
        let plan = classify(&self.remote, &files);
        let ghost pv = plan_view(plan@);
        let mut changed: Vec<String> = Vec::new();
        let mut t: usize = 0;
        while t < plan.len()
            invariant
                t <= plan@.len(),
                pv == plan_view(plan@),
                changed.deep_view() == changed_of(pv.take(t as int)),
            decreases plan.len() - t,
        {
            assert(pv.take(t + 1).drop_last() == pv.take(t as int));
            assert(pv.take(t + 1).last() == (plan@[t as int].0@, plan@[t as int].1));
            if plan[t].1 == Disposition::Changed {
                let ghost before = changed.deep_view();
                changed.push(plan[t].0.clone());
                assert(changed.deep_view() == before.push(plan@[t as int].0@));
            }
            t = t + 1;
        }
        assert(pv.take(plan.len() as int) == pv);
        self.local = files;
        self.plan = plan;
        self.changed = changed;
    }

    fn upload(&mut self, path: String, data: Vec<u8>, phase: SyncPhase) -> (a: SyncAction)
        requires
            old(self).changed.deep_view() == changed_of(plan_view(old(self).plan@)),
            match phase {
                SyncPhase::PlanData { i } => i < old(self).plan@.len(),
                SyncPhase::FallbackReply { k } => k < old(self).changed@.len(),
                _ => false,
            },
        ensures
            keeps(*old(self), *final(self)),
            final(self).wf(),
            data@.len() > usize::MAX / 4 ==> final(self).phase == SyncPhase::Failed && too_large(
                a,
                path@,
            ),
            data@.len() <= usize::MAX / 4 ==> final(self).phase == phase && one_request(
                a,
                MessageView::Data { path: path@, data: b64_encode(data@) },
            ),
    {
        if data.len() > usize::MAX / 4 {
            let mut t = chars_of("cannot encode ");
            push_str(&mut t, path.as_str());
            push_str(&mut t, ": too large");
            return self.fail(string_of(&t));
        }
        self.phase = phase;
        let mut v: Vec<Message> = Vec::new();
        v.push(upload_message(path, &data));
        SyncAction::Request(v)
    }

    /// Takes in one event and says what to do next.
    pub fn next(&mut self, event: SyncEvent) -> (a: SyncAction)
        requires
            old(self).wf(),
        ensures
            sync_step(*old(self), event, *final(self), a),
            final(self).wf(),
    {
        match (self.phase, event) {
            (SyncPhase::Start, SyncEvent::Begin) => {
                self.phase = SyncPhase::Listing;
                let mut v: Vec<Message> = Vec::new();
                v.push(Message::List);
                SyncAction::Request(v)
            },
            (SyncPhase::Listing, SyncEvent::Reply(m)) => {
                match take_listing(&mut self.remote, m) {
                    ListStep::More => SyncAction::Receive,
                    ListStep::Done => {
                        self.phase = SyncPhase::Local;
                        SyncAction::ListLocal
                    },
                    ListStep::Unexpected(other) => self.unexpected(
                        "expected FILE/END_LIST, got ",
                        other,
                    ),
                }
            },
            (SyncPhase::Local, SyncEvent::LocalFiles(files)) => {
                self.set_plan(files);
                self.advance_plan(0)
            },
            (SyncPhase::PlanSkip { i }, SyncEvent::Reply(m)) => {
                if let Message::Error(e) = m {
                    return self.fail(e);
                }
                let n: usize = self.plan.len();
                assert(plan_view(self.plan@).len() == n && i < n);
                self.advance_plan(i + 1)
            },
            (SyncPhase::PlanRead { i }, SyncEvent::FileData(d)) => match d {
                Err(e) => self.fail(e),
                Ok(data) => {
                    let path = self.plan[i].0.clone();
                    self.upload(path, data, SyncPhase::PlanData { i })
                },
            },
            (SyncPhase::PlanData { i }, SyncEvent::Reply(m)) => {
                if let Message::Error(e) = m {
                    return self.fail(e);
                }
                let n: usize = self.plan.len();
                assert(plan_view(self.plan@).len() == n && i < n);
                self.advance_plan(i + 1)
            },
            (SyncPhase::Filter, SyncEvent::Gitignore(lines)) => match self.keep_unignored(&lines) {
                Ok(kept) => {
                    self.doomed = kept;
                    self.advance_delete(0)
                },
                Err(e) => {
                    let mut t = chars_of("failed to parse .gitignore: ");
                    push_str(&mut t, e.as_str());
                    self.fail(string_of(&t))
                },
            },
            (SyncPhase::Deleting { j }, SyncEvent::Reply(m)) => {
                if let Message::Error(e) = m {
                    return self.fail(e);
                }
                let n: usize = self.doomed.len();
                assert(j < n);
                self.advance_delete(j + 1)
            },
            (SyncPhase::Sigs, SyncEvent::Reply(m)) => match take_signature(&mut self.sigs, m) {
                SigStep::More => SyncAction::Receive,
                SigStep::Done => self.advance_delta(0),
                SigStep::Unexpected(other) => self.unexpected("unexpected during SIGS: ", other),
            },
            (SyncPhase::DeltaRead { k }, SyncEvent::FileData(d)) => match d {
                Err(e) => self.fail(e),
                Ok(data) => {
                    let path = self.changed[k].clone();
                    let sig = match signature_for(&self.sigs, path.as_str()) {
                        Some(s) => s,
                        None => return self.out_of_order(),
                    };
                    match delta_message(path, sig.as_str(), &data) {
                        None => {
                            let mut t = chars_of("cannot compute a delta for ");
                            push_str(&mut t, self.changed[k].as_str());
                            self.fail(string_of(&t))
                        },
                        Some(Err(e)) => self.fail(e),
                        Some(Ok(m)) => {
                            self.phase = SyncPhase::DeltaReply { k };
                            let mut v: Vec<Message> = Vec::new();
                            v.push(m);
                            SyncAction::Request(v)
                        },
                    }
                },
            },
            (SyncPhase::DeltaReply { k }, SyncEvent::Reply(m)) => match delta_reply(m) {
                DeltaReply::Applied => {
                    let n: usize = self.changed.len();
                    assert(k < n);
                    self.advance_delta(k + 1)
                },
                DeltaReply::Resend(reason) => {
                    self.phase = SyncPhase::FallbackRead { k };
                    SyncAction::Reupload { path: self.changed[k].clone(), reason }
                },
                DeltaReply::Unexpected(other) => self.unexpected(
                    "unexpected response to DELTA: ",
                    other,
                ),
            },
            (SyncPhase::FallbackRead { k }, SyncEvent::FileData(d)) => match d {
                Err(e) => self.fail(e),
                Ok(data) => {
                    let path = self.changed[k].clone();
                    self.upload(path, data, SyncPhase::FallbackReply { k })
                },
            },
            (SyncPhase::FallbackReply { k }, SyncEvent::Reply(m)) => {
                if let Message::Error(e) = m {
                    return self.fail(e);
                }
                let n: usize = self.changed.len();
                assert(k < n);
                self.advance_delta(k + 1)
            },
            (SyncPhase::Ending, SyncEvent::Reply(m)) => {
                if let Message::Error(e) = m {
                    return self.fail(e);
                }
                self.phase = SyncPhase::Finished;
                SyncAction::Done
            },
            _ => self.out_of_order(),
        }
    }
}

} // verus!
