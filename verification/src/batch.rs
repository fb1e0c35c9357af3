//! The data of a batch: who gets a message, what it says, and what is
//! reported of each attempt.

use vstd::prelude::*;
use crate::tokens::TokenMap;

verus! {

/// The characters of an optional string.
pub open spec fn text_of(s: Option<String>) -> Option<Seq<char>> {
    match s {
        Some(s) => Some(s@),
        None => None,
    }
}

/// What a collaborator answered: nothing on success, a description on
/// failure.
pub open spec fn outcome_of(r: Result<(), String>) -> Result<(), Seq<char>> {
    match r {
        Ok(_) => Ok(()),
        Err(e) => Err(e@),
    }
}

/// A copy of an optional string.
pub fn clone_text(s: &Option<String>) -> (copy: Option<String>)
    ensures
        text_of(copy) == text_of(*s),
{
    match s {
        Some(s) => Some(s.clone()),
        None => None,
    }
}

/// One recipient of a batch, as the contracts see it.
pub ghost struct Recipient {
    pub student_id: Seq<char>,
    pub name: Seq<char>,
    pub phone: Seq<char>,
    pub receipt_path: Option<Seq<char>>,
    pub tokens: Map<Seq<char>, Seq<char>>,
}

/// One recipient of a batch and what is to be put into its message.
pub struct StudentMessage {
    pub student_id: String,
    pub name: String,
    pub phone: String,
    pub receipt_path: Option<String>,
    pub personalization_tokens: TokenMap,
}

impl View for StudentMessage {
    type V = Recipient;

    open spec fn view(&self) -> Recipient {
        Recipient {
            student_id: self.student_id@,
            name: self.name@,
            phone: self.phone@,
            receipt_path: text_of(self.receipt_path),
            tokens: self.personalization_tokens@,
        }
    }
}

/// A batch, as the contracts see it.
pub ghost struct Batch {
    pub recipients: Seq<Recipient>,
    pub template: Seq<char>,
    pub attach_receipt: bool,
    pub interval_seconds: u64,
}

/// A batch: the recipients in the order of delivery, the template of the
/// message, whether the receipt goes with it, and the pause between two
/// recipients.
pub struct BulkMessageRequest {
    pub students: Vec<StudentMessage>,
    pub message_template: String,
    pub attach_receipt: bool,
    pub interval_seconds: u64,
}

impl View for BulkMessageRequest {
    type V = Batch;

    open spec fn view(&self) -> Batch {
        Batch {
            recipients: self.students@.map_values(|s: StudentMessage| s@),
            template: self.message_template@,
            attach_receipt: self.attach_receipt,
            interval_seconds: self.interval_seconds,
        }
    }
}

/// The report on one recipient, as the contracts see it.
pub ghost struct Progress {
    pub student_id: Seq<char>,
    pub name: Seq<char>,
    pub phone: Seq<char>,
    pub status: Seq<char>,
    pub error: Option<Seq<char>>,
    pub processed: nat,
    pub total: nat,
}

/// The report on one recipient: who it was, how the attempt ended, and how
/// far the batch has come.
pub struct MessageProgress {
    pub student_id: String,
    pub name: String,
    pub phone: String,
    pub status: String,
    pub error: Option<String>,
    pub processed: usize,
    pub total: usize,
}

impl View for MessageProgress {
    type V = Progress;

    open spec fn view(&self) -> Progress {
        Progress {
            student_id: self.student_id@,
            name: self.name@,
            phone: self.phone@,
            status: self.status@,
            error: text_of(self.error),
            processed: self.processed as nat,
            total: self.total as nat,
        }
    }
}

/// The status of a recipient whose message was delivered.
pub open spec fn status_sent() -> Seq<char> {
    "sent"@
}

/// The status of a recipient whose delivery failed.
pub open spec fn status_failed() -> Seq<char> {
    "failed"@
}

/// The report that is due on the recipient at position `i` once its delivery
/// has ended with `outcome`: the position counts from one, and the total is
/// the size of the batch.
pub open spec fn progress_of(batch: Batch, i: int, outcome: Result<(), Seq<char>>) -> Progress {
    Progress {
        student_id: batch.recipients[i].student_id,
        name: batch.recipients[i].name,
        phone: batch.recipients[i].phone,
        status: if outcome is Ok {
            status_sent()
        } else {
            status_failed()
        },
        error: match outcome {
            Ok(_) => None,
            Err(description) => Some(description),
        },
        processed: (i + 1) as nat,
        total: batch.recipients.len(),
    }
}

impl BulkMessageRequest {
    /// The report on the recipient at position `i`.
    pub(crate) fn progress(&self, i: usize, outcome: Result<(), String>) -> (report: MessageProgress)
        requires
            i < self.students@.len(),
        ensures
            report@ == progress_of(self@, i as int, outcome_of(outcome)),
    {
        let total = self.students.len();
        let student = &self.students[i];
        let (status, error) = match outcome {
            Ok(_) => ("sent".to_string(), None),
            Err(description) => ("failed".to_string(), Some(description)),
        };
        MessageProgress {
            student_id: student.student_id.clone(),
            name: student.name.clone(),
            phone: student.phone.clone(),
            status,
            error,
            processed: i + 1,
            total,
        }
    }
}

} // verus!
