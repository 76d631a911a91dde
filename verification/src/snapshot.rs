//! Snapshot records.

use crate::boundary::{Call, CallView, RawSnapshot, Resource, Token};
use crate::marshal::{decode_pointer, decoded_pointer, pointer_view};
use vstd::prelude::*;

verus! {

/// One snapshot of a container. The record owns its payload on the native
/// side, and nothing else: not the array that it was listed in.
#[derive(Debug)]
pub struct Snapshot {
    /// The token by which the payload of the record is released.
    pub record: Token,
    /// Name of the snapshot.
    pub name: String,
    /// Time the snapshot was created at.
    pub created: String,
}

/// A snapshot record as the token of its payload and its two texts.
pub ghost struct SnapshotView {
    pub record: usize,
    pub name: Seq<char>,
    pub created: Seq<char>,
}

/// The record that a raw snapshot becomes, where both its texts decode.
pub open spec fn bound_snapshot(raw: RawSnapshot) -> Option<SnapshotView> {
    match (
        decoded_pointer(pointer_view(raw.name)),
        decoded_pointer(pointer_view(raw.timestamp)),
    ) {
        (Some(name), Some(created)) => Some(SnapshotView { record: raw.token, name, created }),
        _ => None,
    }
}

/// The records that the elements of a listing become, where every one of
/// them can be wrapped.
pub open spec fn bound_snapshots(items: Seq<RawSnapshot>) -> Option<Seq<SnapshotView>> {
    if forall|i: int| 0 <= i < items.len() ==> (#[trigger] bound_snapshot(items[i])) is Some {
        Some(Seq::new(items.len(), |i: int| bound_snapshot(items[i])->0))
    } else {
        None
    }
}

/// The payloads that the elements of a listing stand for, in order.
pub open spec fn snapshot_resources(items: Seq<RawSnapshot>) -> Seq<Resource> {
    Seq::new(items.len(), |i: int| Resource::Snapshot(items[i].token))
}

/// The views of a list of records.
pub open spec fn snapshot_views(records: Seq<Snapshot>) -> Seq<SnapshotView> {
    Seq::new(records.len(), |i: int| records[i]@)
}

impl View for Snapshot {
    type V = SnapshotView;

    open spec fn view(&self) -> SnapshotView {
        SnapshotView { record: self.record@, name: self.name@, created: self.created@ }
    }
}

impl Snapshot {
    /// Wraps one element of a snapshot listing. This takes over the payload
    /// of the element, and fails exactly when its name or its timestamp is
    /// missing or is not valid text.
    pub(crate) fn from_raw(raw: RawSnapshot) -> (r: Option<Snapshot>)
        ensures
            r is Some <==> bound_snapshot(raw) is Some,
            r matches Some(s) ==> Some(s@) == bound_snapshot(raw),
    {
        let RawSnapshot { token, name, timestamp } = raw;
        match decode_pointer(name) {
            Some(name) => match decode_pointer(timestamp) {
                Some(created) => Some(Snapshot { record: Token::own(token), name, created }),
                None => None,
            },
            None => None,
        }
    }

    /// Wraps every element of a snapshot listing, in order. This fails
    /// exactly when one of them cannot be wrapped.
    pub(crate) fn from_raw_all(items: Vec<RawSnapshot>) -> (r: Option<Vec<Snapshot>>)
        ensures
            r is Some <==> bound_snapshots(items@) is Some,
            r matches Some(v) ==> Some(snapshot_views(v@)) == bound_snapshots(items@),
    {
        let ghost all = items@;
        let mut rest = items;
        let mut reversed: Vec<Snapshot> = Vec::new();
        while rest.len() > 0
            invariant
                all == items@,
                rest@.len() <= all.len(),
                rest@ == all.subrange(0, rest@.len() as int),
                reversed@.len() == all.len() - rest@.len(),
                forall|j: int|
                    0 <= j < reversed@.len() ==> Some(#[trigger] reversed@[j]@) == bound_snapshot(
                        all[all.len() - 1 - j],
                    ),
            decreases rest@.len(),
        {
            let ghost at = rest@.len() - 1;
            let raw = rest.pop().unwrap();
            proof {
                assert(raw == all[at]);
                assert(rest@ == all.subrange(0, rest@.len() as int));
            }
            match Snapshot::from_raw(raw) {
                Some(s) => {
                    reversed.push(s);
                },
                None => {
                    proof {
                        assert(bound_snapshot(all[at]) is None);
                    }
                    return None;
                },
            }
        }
        let mut ordered: Vec<Snapshot> = Vec::new();
        while reversed.len() > 0
            invariant
                all == items@,
                reversed@.len() + ordered@.len() == all.len(),
                forall|j: int|
                    0 <= j < reversed@.len() ==> Some(#[trigger] reversed@[j]@) == bound_snapshot(
                        all[all.len() - 1 - j],
                    ),
                forall|j: int|
                    0 <= j < ordered@.len() ==> Some(#[trigger] ordered@[j]@) == bound_snapshot(
                        all[j],
                    ),
            decreases reversed@.len(),
        {
            let ghost at = reversed@.len() - 1;
            let s = reversed.pop().unwrap();
            proof {
                assert(Some(s@) == bound_snapshot(all[all.len() - 1 - at]));
            }
            ordered.push(s);
        }
        proof {
            assert forall|i: int| 0 <= i < all.len() implies (#[trigger] bound_snapshot(
                all[i],
            )) == Some(ordered@[i]@) by {}
            assert(snapshot_views(ordered@) =~= bound_snapshots(all)->0);
        }
        Some(ordered)
    }

    /// Ends the life of the record: the call that releases its payload.
    pub fn release(self) -> (call: Call)
        ensures
            call@ == CallView::Release(Resource::Snapshot(self@.record)),
    {
        Call::Release(Resource::Snapshot(self.record.value()))
    }
}

} // verus!
