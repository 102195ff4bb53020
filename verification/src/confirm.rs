//! State of the delete-confirmation dialog: which email is pending deletion
//! and the subject shown in the prompt.
use vstd::prelude::*;

verus! {

/// A pending deletion awaiting the user's confirmation.
#[derive(Debug)]
pub struct DeleteConfirmation {
    pub email_id: usize,
    pub email_subject: String,
}

impl Clone for DeleteConfirmation {
    fn clone(&self) -> (r: Self)
        ensures
            r.email_id == self.email_id,
            r.email_subject@ == self.email_subject@,
    {
        DeleteConfirmation { email_id: self.email_id, email_subject: self.email_subject.clone() }
    }
}

impl DeleteConfirmation {
    /// A confirmation prompt for the email with this id and subject.
    pub fn new(email_id: usize, email_subject: &str) -> (r: Self)
        ensures
            r.email_id == email_id,
            r.email_subject@ == email_subject@,
    {
        DeleteConfirmation { email_id, email_subject: email_subject.to_owned() }
    }
}

} // verus!
