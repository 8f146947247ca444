//! Saving a subject with its links to courses, in one store transaction.
//!
//! The store work is done by the caller; `SubjectSave` says what to do next
//! after each outcome: open the transaction, write the subject, write its
//! links, then commit. A failed write rolls the transaction back, so that
//! either the subject and all its links are kept or none of them is.

use crate::error::ServiceError;
use crate::ids::is_generated_id;
use crate::subject::model::{Subject, SubjectCourse};
use vstd::prelude::*;

verus! {

broadcast use vstd::string::to_string_from_display_ensures_for_str;

/// Where a save stands.
#[derive(Debug, Clone, Copy, PartialEq, Eq, Structural)]
pub enum SavePhase {
    /// The transaction is being opened.
    Opening,
    /// The subject row is being written.
    WritingSubject,
    /// The link rows are being written.
    WritingLinks,
    /// The transaction is being committed.
    Committing,
    /// The transaction is being rolled back after a failure.
    RollingBack,
    /// The save is over; its outcome is known.
    Done,
}

/// The store work to do next.
#[derive(Debug, Clone, Copy, PartialEq, Eq, Structural)]
pub enum TxAction {
    /// Open a transaction.
    Begin,
    /// Write the subject row, in the transaction.
    InsertSubject,
    /// Write all the link rows, in the transaction.
    InsertLinks,
    /// Commit the transaction.
    Commit,
    /// Roll the transaction back.
    Rollback,
    /// Nothing more: read the outcome.
    Finish,
}

/// The next phase and action after the current action ended, in success
/// (`ok`) or failure.
pub open spec fn step(phase: SavePhase, ok: bool) -> (SavePhase, TxAction) {
    match phase {
        SavePhase::Opening => if ok {
            (SavePhase::WritingSubject, TxAction::InsertSubject)
        } else {
            (SavePhase::Done, TxAction::Finish)
        },
        SavePhase::WritingSubject => if ok {
            (SavePhase::WritingLinks, TxAction::InsertLinks)
        } else {
            (SavePhase::RollingBack, TxAction::Rollback)
        },
        SavePhase::WritingLinks => if ok {
            (SavePhase::Committing, TxAction::Commit)
        } else {
            (SavePhase::RollingBack, TxAction::Rollback)
        },
        SavePhase::Committing => (SavePhase::Done, TxAction::Finish),
        SavePhase::RollingBack => (SavePhase::Done, TxAction::Finish),
        SavePhase::Done => (SavePhase::Done, TxAction::Finish),
    }
}

/// The actions issued, one per outcome, starting from `phase`.
pub open spec fn run(phase: SavePhase, outcomes: Seq<bool>) -> Seq<TxAction>
    decreases outcomes.len(),
{
    if outcomes.len() == 0 {
        Seq::empty()
    } else {
        let (next, action) = step(phase, outcomes[0]);
        seq![action] + run(next, outcomes.drop_first())
    }
}

/// Once the transaction is being committed or rolled back, only `Finish`
/// follows.
pub proof fn lemma_run_ends(phase: SavePhase, outcomes: Seq<bool>)
    requires
        phase == SavePhase::Committing || phase == SavePhase::RollingBack || phase
            == SavePhase::Done,
    ensures
        forall|i: int|
            0 <= i < outcomes.len() ==> #[trigger] run(phase, outcomes)[i] == TxAction::Finish,
    decreases outcomes.len(),
{
    if outcomes.len() > 0 {
        lemma_run_ends(SavePhase::Done, outcomes.drop_first());
        lemma_run_len(SavePhase::Done, outcomes.drop_first());
        let rest = run(SavePhase::Done, outcomes.drop_first());
        assert forall|i: int| 0 <= i < outcomes.len() implies #[trigger] run(phase, outcomes)[i]
            == TxAction::Finish by {
            if i > 0 {
                assert(run(phase, outcomes)[i] == rest[i - 1]);
            }
        }
    }
}

proof fn lemma_run_len(phase: SavePhase, outcomes: Seq<bool>)
    ensures
        run(phase, outcomes).len() == outcomes.len(),
    decreases outcomes.len(),
{
    if outcomes.len() > 0 {
        lemma_run_len(step(phase, outcomes[0]).0, outcomes.drop_first());
    }
}

/// The first action of a run, and the run after it.
proof fn lemma_run_first(phase: SavePhase, outcomes: Seq<bool>)
    requires
        outcomes.len() > 0,
    ensures
        run(phase, outcomes)[0] == step(phase, outcomes[0]).1,
        forall|i: int|
            1 <= i < outcomes.len() ==> #[trigger] run(phase, outcomes)[i] == run(
                step(phase, outcomes[0]).0,
                outcomes.drop_first(),
            )[i - 1],
{
    lemma_run_len(step(phase, outcomes[0]).0, outcomes.drop_first());
}

/// A save commits only when the transaction opened and both the subject
/// and its links were written: `Commit` is issued in answer to the third
/// outcome, and only when the first three all succeeded.
pub proof fn lemma_commit_only_after_writes(outcomes: Seq<bool>)
    ensures
        run(SavePhase::Opening, outcomes).contains(TxAction::Commit) ==> {
            &&& outcomes.len() >= 3
            &&& outcomes[0]
            &&& outcomes[1]
            &&& outcomes[2]
            &&& run(SavePhase::Opening, outcomes)[2] == TxAction::Commit
        },
{
    let r = run(SavePhase::Opening, outcomes);
    lemma_run_len(SavePhase::Opening, outcomes);
    if r.contains(TxAction::Commit) {
        let k = choose|k: int| 0 <= k < r.len() && r[k] == TxAction::Commit;
        lemma_run_first(SavePhase::Opening, outcomes);
        let o1 = outcomes.drop_first();
        let next1 = step(SavePhase::Opening, outcomes[0]).0;
        assert(k >= 1);
        assert(r[k] == run(next1, o1)[k - 1]);
        if !outcomes[0] {
            lemma_run_ends(SavePhase::Done, o1);
        } else {
            lemma_run_first(next1, o1);
            let o2 = o1.drop_first();
            let next2 = step(next1, o1[0]).0;
            assert(k >= 2);
            assert(run(next1, o1)[k - 1] == run(next2, o2)[k - 2]);
            if !o1[0] {
                lemma_run_ends(SavePhase::RollingBack, o2);
            } else {
                lemma_run_first(next2, o2);
                let o3 = o2.drop_first();
                let next3 = step(next2, o2[0]).0;
                if !o2[0] {
                    assert(k >= 3);
                    assert(run(next2, o2)[k - 2] == run(next3, o3)[k - 3]);
                    lemma_run_ends(SavePhase::RollingBack, o3);
                } else {
                    assert(r[2] == run(next2, o2)[0]);
                }
            }
        }
    }
}

/// When the transaction opened and the subject write or the links write
/// then failed, the save rolls the transaction back and never commits: the
/// store keeps neither the subject nor any of its links.
pub proof fn lemma_failed_write_rolls_back(outcomes: Seq<bool>)
    requires
        outcomes.len() >= 3,
        outcomes[0],
        !outcomes[1] || !outcomes[2],
    ensures
        !run(SavePhase::Opening, outcomes).contains(TxAction::Commit),
        run(SavePhase::Opening, outcomes).contains(TxAction::Rollback),
{
    lemma_commit_only_after_writes(outcomes);
    let r = run(SavePhase::Opening, outcomes);
    let o1 = outcomes.drop_first();
    lemma_run_first(SavePhase::Opening, outcomes);
    lemma_run_first(SavePhase::WritingSubject, o1);
    if !outcomes[1] {
        assert(r[1] == TxAction::Rollback);
    } else {
        let o2 = o1.drop_first();
        lemma_run_first(SavePhase::WritingLinks, o2);
        assert(r[2] == run(SavePhase::WritingSubject, o1)[1]);
        assert(r[2] == TxAction::Rollback);
    }
}

/// A new subject must be linked to at least one course: an empty list of
/// courses is refused with `ConstraintViolation`.
pub fn check_course_ids(course_ids: &Vec<String>) -> (r: Result<(), ServiceError>)
    ensures
        r is Ok <==> course_ids@.len() > 0,
        r is Err ==> r->Err_0 is ConstraintViolation,
{
    if course_ids.len() == 0 {
        Err(ServiceError::ConstraintViolation("a subject needs at least one course".to_string()))
    } else {
        Ok(())
    }
}

/// The save of one subject with its links to courses.
pub struct SubjectSave {
    subject: Subject,
    links: Vec<SubjectCourse>,
    phase: SavePhase,
    failure: Option<String>,
}

impl SubjectSave {
    pub closed spec fn spec_subject(&self) -> Subject {
        self.subject
    }

    pub closed spec fn spec_links(&self) -> Seq<SubjectCourse> {
        self.links@
    }

    pub closed spec fn spec_phase(&self) -> SavePhase {
        self.phase
    }

    /// The message of the first store failure, if there was one.
    pub closed spec fn spec_failure(&self) -> Option<String> {
        self.failure
    }

    /// Starts the save of a new subject, under a fresh identifier, linked to
    /// each of `course_ids` by one link row, in that order. The first action
    /// is to open the transaction.
    pub fn new(code: &str, name: &str, program: &str, course_ids: &Vec<String>) -> (r: (
        SubjectSave,
        TxAction,
    ))
        ensures
            r.1 == TxAction::Begin,
            r.0.spec_phase() == SavePhase::Opening,
            r.0.spec_failure() is None,
            is_generated_id(r.0.spec_subject().id@),
            r.0.spec_subject().code@ == code@,
            r.0.spec_subject().name@ == name@,
            r.0.spec_subject().program@ == program@,
            r.0.spec_links().len() == course_ids@.len(),
            forall|i: int|
                0 <= i < course_ids@.len() ==> {
                    let l = #[trigger] r.0.spec_links()[i];
                    &&& is_generated_id(l.id@)
                    &&& l.subject_id@ == r.0.spec_subject().id@
                    &&& l.course_id@ == course_ids@[i]@
                },
    {
        let subject = Subject::new(code, name, program);
        let mut links: Vec<SubjectCourse> = Vec::new();
        let mut i: usize = 0;
        while i < course_ids.len()
            invariant
                i <= course_ids@.len(),
                links@.len() == i,
                forall|k: int|
                    0 <= k < i ==> {
                        let l = #[trigger] links@[k];
                        &&& is_generated_id(l.id@)
                        &&& l.subject_id@ == subject.id@
                        &&& l.course_id@ == course_ids@[k]@
                    },
            decreases course_ids@.len() - i,
        {
            links.push(SubjectCourse::new(subject.id.as_str(), course_ids[i].as_str()));
            i = i + 1;
        }
        (SubjectSave { subject, links, phase: SavePhase::Opening, failure: None }, TxAction::Begin)
    }

    /// The subject row to write.
    pub fn subject(&self) -> (r: &Subject)
        ensures
            *r == self.spec_subject(),
    {
        &self.subject
    }

    /// The link rows to write.
    pub fn links(&self) -> (r: &Vec<SubjectCourse>)
        ensures
            r@ == self.spec_links(),
    {
        &self.links
    }

    /// Where the save stands.
    pub fn phase(&self) -> (r: SavePhase)
        ensures
            r == self.spec_phase(),
    {
        self.phase
    }

    /// Takes the outcome of the last action and gives the next one. The
    /// first failure is kept as the reason the save failed.
    pub fn advance(&mut self, outcome: Result<(), String>) -> (a: TxAction)
        ensures
            (final(self).spec_phase(), a) == step(old(self).spec_phase(), outcome is Ok),
            final(self).spec_subject() == old(self).spec_subject(),
            final(self).spec_links() == old(self).spec_links(),
            final(self).spec_failure() == match old(self).spec_failure() {
                Some(f) => Some(f),
                None => match outcome {
                    Err(e) => if old(self).spec_phase() == SavePhase::Done {
                        None
                    } else {
                        Some(e)
                    },
                    Ok(_) => None,
                },
            },
    {
        let ok = outcome.is_ok();
        if self.failure.is_none() && self.phase != SavePhase::Done {
            if let Err(e) = outcome {
                self.failure = Some(e);
            }
        }
        let (next, action) = match self.phase {
            SavePhase::Opening => if ok {
                (SavePhase::WritingSubject, TxAction::InsertSubject)
            } else {
                (SavePhase::Done, TxAction::Finish)
            },
            SavePhase::WritingSubject => if ok {
                (SavePhase::WritingLinks, TxAction::InsertLinks)
            } else {
                (SavePhase::RollingBack, TxAction::Rollback)
            },
            SavePhase::WritingLinks => if ok {
                (SavePhase::Committing, TxAction::Commit)
            } else {
                (SavePhase::RollingBack, TxAction::Rollback)
            },
            SavePhase::Committing => (SavePhase::Done, TxAction::Finish),
            SavePhase::RollingBack => (SavePhase::Done, TxAction::Finish),
            SavePhase::Done => (SavePhase::Done, TxAction::Finish),
        };
        self.phase = next;
        action
    }

    /// The outcome of a finished save: the subject when every step
    /// succeeded, else `StorageFailure` with the first failure's message.
    pub fn outcome(&self) -> (r: Result<Subject, ServiceError>)
        requires
            self.spec_phase() == SavePhase::Done,
        ensures
            match self.spec_failure() {
                None => r == Ok::<Subject, ServiceError>(self.spec_subject()),
                Some(f) => r == Err::<Subject, ServiceError>(ServiceError::StorageFailure(f)),
            },
    {
        match &self.failure {
            None => Ok(self.subject.clone()),
            Some(f) => Err(ServiceError::StorageFailure(f.clone())),
        }
    }
}

} // verus!
