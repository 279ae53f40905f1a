//! One pass over a plugin directory.
//!
//! The host walks the directory and performs each load; this module decides
//! which entries are candidates, when the pass is over, and what it reports.
//! Only regular files are candidates, and the first candidate that fails to
//! load ends the pass: nothing after it is tried, and what was registered
//! before it stays registered.

use vstd::prelude::*;

verus! {

/// What the host finds at one directory entry: whether it is a regular
/// file, and what loading it gives if it is tried.
pub struct Entry {
    pub is_file: bool,
    pub load: Result<(), Seq<char>>,
}

/// The state of a pass after one more entry: a pass that has failed stays
/// as it is, an entry that is no regular file changes nothing, and a
/// regular file that fails to load becomes the pass's failure.
pub open spec fn step(failure: Option<Seq<char>>, entry: Entry) -> Option<Seq<char>> {
    if failure is None && entry.is_file {
        match entry.load {
            Ok(_) => None,
            Err(message) => Some(message),
        }
    } else {
        failure
    }
}

/// The state of a pass after all of `entries`, in order.
pub open spec fn run(failure: Option<Seq<char>>, entries: Seq<Entry>) -> Option<Seq<char>>
    decreases entries.len(),
{
    if entries.len() == 0 {
        failure
    } else {
        run(step(failure, entries[0]), entries.skip(1))
    }
}

/// Whether `entries[i]` is a regular file that fails to load.
pub open spec fn fails_at(entries: Seq<Entry>, i: int) -> bool {
    0 <= i < entries.len() && entries[i].is_file && entries[i].load is Err
}

/// A pass that has failed reports that failure, whatever comes after it.
pub proof fn lemma_failure_is_final(message: Seq<char>, entries: Seq<Entry>)
    ensures
        run(Some(message), entries) == Some(message),
    decreases entries.len(),
{
    if entries.len() > 0 {
        lemma_failure_is_final(message, entries.skip(1));
    }
}

/// A pass succeeds exactly when every regular file in the directory loads.
pub proof fn lemma_pass_succeeds_iff_all_load(entries: Seq<Entry>)
    ensures
        run(None, entries) is None <==> forall|i: int| !fails_at(entries, i),
    decreases entries.len(),
{
    if entries.len() > 0 {
        let rest = entries.skip(1);
        if fails_at(entries, 0) {
            lemma_failure_is_final(entries[0].load->Err_0, rest);
        } else {
            lemma_pass_succeeds_iff_all_load(rest);
            if forall|i: int| !fails_at(rest, i) {
                assert forall|i: int| !fails_at(entries, i) by {
                    if 0 < i < entries.len() {
                        assert(!fails_at(rest, i - 1));
                    }
                }
            } else {
                let i = choose|i: int| fails_at(rest, i);
                assert(fails_at(entries, i + 1));
            }
        }
    }
}

/// A pass that fails reports the first regular file that fails to load,
/// whatever stands behind it in the directory.
pub proof fn lemma_pass_reports_first_failure(entries: Seq<Entry>, first: int)
    requires
        fails_at(entries, first),
        forall|i: int| 0 <= i < first ==> !fails_at(entries, i),
    ensures
        run(None, entries) == Some(entries[first].load->Err_0),
    decreases entries.len(),
{
    let rest = entries.skip(1);
    if first == 0 {
        lemma_failure_is_final(entries[0].load->Err_0, rest);
    } else {
        assert(!fails_at(entries, 0));
        assert forall|i: int| 0 <= i < first - 1 implies !fails_at(rest, i) by {
            assert(!fails_at(entries, i + 1));
        }
        lemma_pass_reports_first_failure(rest, first - 1);
    }
}

/// The progress of one pass: the failure that ended it, if one did.
pub struct LoadPass {
    failure: Option<String>,
}

impl LoadPass {
    /// The report of the candidate that ended this pass, if one did.
    pub closed spec fn failure(&self) -> Option<Seq<char>> {
        match self.failure {
            Some(message) => Some(message@),
            None => None,
        }
    }

    /// A pass that has seen no entry yet.
    pub fn begin() -> (pass: Self)
        ensures
            pass.failure() is None,
    {
        LoadPass { failure: None }
    }

    /// Whether the pass is over because a candidate failed to load.
    pub fn halted(&self) -> (over: bool)
        ensures
            over == self.failure() is Some,
    {
        self.failure.is_some()
    }

    /// Whether the host is to load the entry it stands at: only a regular
    /// file, and only while no candidate has failed.
    pub fn admits(&self, is_file: bool) -> (wanted: bool)
        ensures
            wanted == (is_file && self.failure() is None),
    {
        is_file && self.failure.is_none()
    }

    /// Takes in what the load of an admitted entry gave.
    pub fn record(&mut self, outcome: Result<(), String>)
        ensures
            final(self).failure() == step(
                old(self).failure(),
                (Entry {
                    is_file: true,
                    load: match outcome {
                        Ok(_) => Ok(()),
                        Err(message) => Err(message@),
                    },
                }),
            ),
    {
        if self.failure.is_none() {
            match outcome {
                Ok(_) => {},
                Err(message) => {
                    self.failure = Some(message);
                },
            }
        }
    }

    /// What the pass reports: success, or the failure that ended it.
    pub fn finish(self) -> (outcome: Result<(), String>)
        ensures
            match self.failure() {
                None => outcome is Ok,
                Some(message) => outcome matches Err(reported) && reported@ == message,
            },
    {
        match self.failure {
            None => Ok(()),
            Some(message) => Err(message),
        }
    }
}

/// The status that the handle-based surface reports for a pass: zero after
/// a success, one after a failure of any kind.
pub fn status_code(outcome: &Result<(), String>) -> (status: i32)
    ensures
        status == (if outcome is Ok { 0i32 } else { 1i32 }),
{
    match outcome {
        Ok(_) => 0,
        Err(_) => 1,
    }
}

} // verus!
