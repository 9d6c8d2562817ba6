//! The print job: what one label carries.
use vstd::prelude::*;

verus! {

/// One print job, as the job form submits it and the job table stores it.
#[derive(Debug, Clone, PartialEq, Eq)]
pub struct Job {
    pub jid: i64,
    pub job: String,
    pub part: String,
    pub qty: u64,
    pub start: String,
    pub stop: String,
    pub checksum: String,
    pub chip: String,
    pub vendor: String,
    pub part_type: String,
    pub date: String,
    pub lot: String,
    pub user: String,
}

impl Job {
    /// The empty job: every number zero, every text empty.
    pub fn new() -> (j: Self)
        ensures
            j.jid == 0,
            j.qty == 0,
            j.job@ == Seq::<char>::empty(),
            j.part@ == Seq::<char>::empty(),
            j.start@ == Seq::<char>::empty(),
            j.stop@ == Seq::<char>::empty(),
            j.checksum@ == Seq::<char>::empty(),
            j.chip@ == Seq::<char>::empty(),
            j.vendor@ == Seq::<char>::empty(),
            j.part_type@ == Seq::<char>::empty(),
            j.date@ == Seq::<char>::empty(),
            j.lot@ == Seq::<char>::empty(),
            j.user@ == Seq::<char>::empty(),
    {
        Self {
            jid: 0,
            job: String::default(),
            part: String::default(),
            qty: 0,
            start: String::default(),
            stop: String::default(),
            checksum: String::default(),
            chip: String::default(),
            vendor: String::default(),
            part_type: String::default(),
            date: String::default(),
            lot: String::default(),
            user: String::default(),
        }
    }
}

} // verus!
