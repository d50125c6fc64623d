//! A room: a named set of device-name references. The set is kept as a
//! vector whose entries are pairwise distinct.

use crate::names::contains_name;
use crate::names::dedup_names;
use crate::names::distinct_names;
use crate::names::lemma_dedup_names;
use crate::names::str_eq;
use vstd::prelude::*;
use vstd::seq_lib::group_to_multiset_ensures;

verus! {

/// A named collection of device names, with no duplicates.
pub struct Room {
    pub name: String,
    pub devices: Vec<String>,
}

impl Room {
    /// The room's device-name set, as a sequence of character sequences.
    pub open spec fn devices_spec(&self) -> Seq<Seq<char>> {
        self.devices.deep_view()
    }

    /// Whether the room lists a device of the given name.
    pub open spec fn has_device(&self, device: Seq<char>) -> bool {
        self.devices_spec().contains(device)
    }

    /// Well-formedness: no device name occurs twice.
    pub open spec fn wf(&self) -> bool {
        distinct_names(self.devices_spec())
    }

    /// Builds a room from a name and an initial list of device names;
    /// repeated names are dropped, keeping each name's first occurrence.
    pub fn new(name: String, devices: Vec<String>) -> (r: Room)
        ensures
            r.wf(),
            r.name == name,
            r.devices_spec() == dedup_names(devices.deep_view()),
    {
        let mut kept: Vec<String> = Vec::new();
        let mut i: usize = 0;
        while i < devices.len()
            invariant
                i <= devices@.len(),
                kept.deep_view() == dedup_names(devices.deep_view().take(i as int)),
            decreases devices@.len() - i,
        {
            proof {
                let taken = devices.deep_view().take(i + 1);
                assert(taken.drop_last() =~= devices.deep_view().take(i as int));
                assert(taken.last() == devices.deep_view()[i as int]);
            }
            if !contains_name(&kept, devices[i].as_str()) {
                let d = devices[i].clone();
                assert(d@ == devices.deep_view()[i as int]);
                kept.push(d);
                assert(kept.deep_view() =~= dedup_names(devices.deep_view().take(i + 1)));
            } else {
                assert(kept.deep_view() =~= dedup_names(devices.deep_view().take(i + 1)));
            }
            i += 1;
        }
        proof {
            assert(devices.deep_view().take(devices@.len() as int) =~= devices.deep_view());
            lemma_dedup_names(devices.deep_view());
        }
        Room { name, devices: kept }
    }

    /// The room's name.
    pub fn get_name(&self) -> (r: &str)
        ensures
            r@ == self.name@,
    {
        self.name.as_str()
    }

    /// The device-name set, or nothing when no device is registered.
    pub fn devices(&self) -> (r: Option<&Vec<String>>)
        ensures
            self.devices_spec().len() == 0 ==> r is None,
            self.devices_spec().len() > 0 ==> (r matches Some(v) && v@ == self.devices@),
    {
        if self.devices.is_empty() {
            None
        } else {
            Some(&self.devices)
        }
    }

    /// Inserts a device name if it is absent; signals a no-op otherwise.
    pub fn add_device(&mut self, device: String) -> (r: Option<bool>)
        requires
            old(self).wf(),
        ensures
            final(self).wf(),
            final(self).name == old(self).name,
            old(self).has_device(device@) ==> r == None::<bool> && final(self).devices_spec()
                == old(self).devices_spec(),
            !old(self).has_device(device@) ==> r == Some(true) && final(self).devices_spec() == old(
                self,
            ).devices_spec().push(device@),
    {
        if !contains_name(&self.devices, device.as_str()) {
            let ghost before = self.devices.deep_view();
            self.devices.push(device);
            proof {
                assert(self.devices.deep_view() =~= before.push(device@));
                assert forall|i: int, j: int|
                    0 <= i < j < self.devices_spec().len() implies self.devices_spec()[i]
                    != self.devices_spec()[j] by {
                    if j == before.len() as int {
                        assert(before.contains(before[i]));
                    }
                }
            }
            return Some(true);
        }
        None
    }

    /// Removes a device name; reports whether it was present.
    pub fn delete_device(&mut self, device: &str) -> (r: Option<bool>)
        requires
            old(self).wf(),
        ensures
            final(self).wf(),
            final(self).name == old(self).name,
            final(self).devices_spec() == old(self).devices_spec().remove_value(device@),
            r == Some(old(self).has_device(device@)),
    {
        let ghost ds = self.devices.deep_view();
        let mut i: usize = 0;
        while i < self.devices.len()
            invariant
                i <= self.devices@.len(),
                self.devices.deep_view() == ds,
                self.name == old(self).name,
                ds == old(self).devices.deep_view(),
                distinct_names(ds),
                forall|k: int| 0 <= k < i ==> ds[k] != device@,
            decreases self.devices@.len() - i,
        {
            if str_eq(self.devices[i].as_str(), device) {
                proof {
                    assert(ds[i as int] == device@);
                    assert(ds.contains(device@));
                    ds.index_of_first_ensures(device@);
                    assert(ds.index_of_first(device@) == Some(i as int));
                    ds.remove_ensures(i as int);
                    lemma_distinct_names_remove(ds, i as int);
                }
                let ghost before = self.devices@;
                self.devices.remove(i);
                proof {
                    before.remove_ensures(i as int);
                    assert(self.devices.deep_view() =~= ds.remove(i as int));
                }
                return Some(true);
            }
            i += 1;
        }
        proof {
            assert(!ds.contains(device@));
            ds.index_of_first_ensures(device@);
        }
        Some(false)
    }
}

/// Removing one entry of a duplicate-free sequence keeps it duplicate-free.
proof fn lemma_distinct_names_remove(names: Seq<Seq<char>>, i: int)
    requires
        distinct_names(names),
        0 <= i < names.len(),
    ensures
        distinct_names(names.remove(i)),
{
    names.remove_ensures(i);
    assert forall|a: int, b: int| 0 <= a < b < names.remove(i).len() implies names.remove(i)[a]
        != names.remove(i)[b] by {
        let a0 = if a < i {
            a
        } else {
            a + 1
        };
        let b0 = if b < i {
            b
        } else {
            b + 1
        };
        assert(names.remove(i)[a] == names[a0]);
        assert(names.remove(i)[b] == names[b0]);
    }
}

/// Law: adding a fresh device name and then adding the same name again is
/// a no-op the second time, and leaves exactly one entry of that name in
/// the device set. Stated over the set transitions that `Room::add_device`
/// promises: the first call pushes the name, the second finds it present.
pub proof fn lemma_add_device_twice(devices: Seq<Seq<char>>, name: Seq<char>)
    requires
        !devices.contains(name),
    ensures
        devices.push(name).contains(name),
        devices.push(name).to_multiset().count(name) == 1,
{
    broadcast use group_to_multiset_ensures;

    assert(devices.push(name).last() == name);
    assert(devices.push(name).to_multiset() =~= devices.to_multiset().insert(name));
    assert(devices.to_multiset().count(name) == 0);
}

/// Law: deleting a present device removes exactly that one name: it is no
/// longer contained, the set shrinks by one, and every other name keeps
/// its membership. Stated over the transition that `Room::delete_device`
/// promises for a well-formed room.
pub proof fn lemma_delete_device_removes(devices: Seq<Seq<char>>, name: Seq<char>)
    requires
        distinct_names(devices),
        devices.contains(name),
    ensures
        !devices.remove_value(name).contains(name),
        devices.remove_value(name).len() == devices.len() - 1,
        forall|d: Seq<char>| d != name ==> (#[trigger] devices.remove_value(name).contains(d)
            <==> devices.contains(d)),
{
    devices.index_of_first_ensures(name);
    let i = devices.index_of_first(name)->0;
    devices.remove_ensures(i);
    let removed = devices.remove(i);
    assert forall|k: int| 0 <= k < removed.len() implies removed[k] != name by {
        if k < i {
            assert(removed[k] == devices[k]);
        } else {
            assert(removed[k] == devices[k + 1]);
        }
    }
    assert(!removed.contains(name));
    assert forall|d: Seq<char>| d != name implies (#[trigger] removed.contains(d)
        <==> devices.contains(d)) by {
        if removed.contains(d) {
            let k = choose|k: int| 0 <= k < removed.len() && removed[k] == d;
            if k < i {
                assert(devices[k] == d);
            } else {
                assert(devices[k + 1] == d);
            }
        }
        if devices.contains(d) {
            let k = choose|k: int| 0 <= k < devices.len() && devices[k] == d;
            if k < i {
                assert(removed[k] == d);
            } else {
                assert(k != i);
                assert(removed[k - 1] == d);
            }
        }
    }
}

} // verus!
