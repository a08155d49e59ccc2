use vstd::prelude::*;
use crate::event_flag::{EventFlag, ScanType, spec_from_inotify_mask};

verus! {

/// A file system event: the path it concerns, what happened, and its id.
pub struct FsEvent {
    /// The path of this event, as text.
    pub path: String,
    /// The event type.
    pub flag: EventFlag,
    /// The event id.
    pub id: u64,
}

/// What `Path::new(a) == Path::new(b)` answers: whether two path texts have
/// the same components.
pub uninterp spec fn path_equal(a: Seq<char>, b: Seq<char>) -> bool;

/// `<Path as PartialEq>::eq` on two path texts: equal components. Claimed:
/// the answer depends on the two texts alone, and equal texts are equal
/// paths (`Path` is `Eq`).
#[verifier::external_body]
fn same_path(a: &str, b: &str) -> (r: bool)
    ensures
        r == path_equal(a@, b@),
        a@ == b@ ==> r,
{
    std::path::Path::new(a) == std::path::Path::new(b)
}

/// Whether an event of the given scan type calls for a full rescan.
pub open spec fn spec_rescan_needed(scan: ScanType, at_root: bool) -> bool {
    scan == ScanType::ReScan || ((scan == ScanType::SingleNode || scan == ScanType::Folder) && at_root)
}

/// Whether an event of the given scan type calls for a full rescan: always
/// for `ReScan`, for a single node or folder only when the event concerns
/// the watched root itself, never for `Nop`.
pub fn rescan_needed(scan: ScanType, at_root: bool) -> (r: bool)
    ensures
        r == spec_rescan_needed(scan, at_root),
{
    match scan {
        ScanType::ReScan => true,
        ScanType::SingleNode | ScanType::Folder => at_root,
        ScanType::Nop => false,
    }
}

impl FsEvent {
    /// Whether this event calls for a full rescan of the tree under `root`:
    /// always when the root changed, for a node or folder event only when it
    /// concerns the root itself.
    pub fn should_rescan(&self, root: &str) -> (r: bool)
        ensures
            r == spec_rescan_needed(self.flag.spec_scan_type(), path_equal(self.path@, root@)),
    {
        let scan = self.flag.scan_type();
        match scan {
            ScanType::ReScan => true,
            ScanType::Nop => false,
            _ => {
                let at_root = same_path(self.path.as_str(), root);
                rescan_needed(scan, at_root)
            },
        }
    }
}

/// The paths, flag bits and ids of the events made from raw inotify records
/// (mask, and the name where the record carries one), numbering records on
/// from `counter`: every record takes the next id, and only named records
/// give an event, whose path is the record's name.
pub open spec fn spec_inotify_events(records: Seq<(u32, Option<Seq<char>>)>, counter: int) -> Seq<(Seq<char>, u32, int)>
    decreases records.len(),
{
    if records.len() == 0 {
        Seq::empty()
    } else {
        let prev = spec_inotify_events(records.drop_last(), counter);
        let id = counter + records.len();
        match records.last().1 {
            Some(name) => prev.push((name, spec_from_inotify_mask(records.last().0), id)),
            None => prev,
        }
    }
}

pub open spec fn name_view(n: Option<String>) -> Option<Seq<char>> {
    match n {
        Some(s) => Some(s@),
        None => None,
    }
}

pub open spec fn records_view(records: Seq<(u32, Option<String>)>) -> Seq<(u32, Option<Seq<char>>)> {
    Seq::new(records.len(), |i: int| (records[i].0, name_view(records[i].1)))
}

pub open spec fn events_view(events: Seq<FsEvent>) -> Seq<(Seq<char>, u32, int)> {
    Seq::new(events.len(), |i: int| (events[i].path@, events[i].flag.bits, events[i].id as int))
}

/// The events for a batch of inotify records read after `counter` records:
/// returns them with the new count of records.
pub fn events_from_inotify(records: Vec<(u32, Option<String>)>, counter: u64) -> (r: (Vec<FsEvent>, u64))
    requires
        counter + records@.len() <= u64::MAX,
    ensures
        r.1 == counter + records@.len(),
        events_view(r.0@) == spec_inotify_events(records_view(records@), counter as int),
{
    let ghost rv = records_view(records@);
    let n = records.len();
    let mut events: Vec<FsEvent> = Vec::new();
    let mut count = counter;
    let mut records = records;
    let ghost all = records@;
    let mut i: usize = 0;
    while i < n
        invariant
            n == all.len(),
            rv == records_view(all),
            i <= n,
            records@.len() == n,
            forall|j: int| i <= j < n ==> #[trigger] records@[j] == all[j],
            count == counter + i,
            counter + n <= u64::MAX,
            events_view(events@) == spec_inotify_events(rv.take(i as int), counter as int),
        decreases n - i,
    {
        let mut record: (u32, Option<String>) = (0, None);
        let ghost before = records@;
        std::mem::swap(&mut record, &mut records[i]);
        proof {
            assert(record == all[i as int]);
            assert(records@ == before.update(i as int, (0u32, None::<String>)));
        }
        count = count + 1;
        let (mask, name) = record;
        let ghost ev_before = events@;
        match name {
            Some(s) => {
                events.push(FsEvent { path: s, flag: EventFlag::from_inotify_mask(mask), id: count });
            },
            None => {},
        }
        proof {
            let t = rv.take(i + 1);
            assert(t.drop_last() =~= rv.take(i as int));
            assert(t.last() == rv[i as int]);
            assert(rv[i as int] == (all[i as int].0, name_view(all[i as int].1)));
            assert(events_view(events@) =~= spec_inotify_events(t, counter as int));
        }
        i = i + 1;
    }
    proof {
        assert(rv.take(n as int) =~= rv);
    }
    (events, count)
}

} // verus!
