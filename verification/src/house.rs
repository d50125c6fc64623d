//! The smart house: a named collection of uniquely-named rooms, and the
//! report that scans every room/device pair through a provider.

use crate::names::str_eq;
use crate::provider::DeviceInfoProvider;
use crate::room::Room;
use vstd::prelude::*;

verus! {

/// Why a report could not be produced.
#[derive(PartialEq, Eq, Debug)]
pub enum ReportError {
    /// The house has rooms, but the provider resolved none of their devices.
    NoInfoProvided,
    /// The house has no rooms at all.
    RoomsNotFound,
}

/// The report line contributed by one device of one room: the provider's
/// line followed by a newline, or nothing when the provider does not
/// recognize the device.
pub open spec fn device_line<P: DeviceInfoProvider>(
    provider: &P,
    room_name: Seq<char>,
    device: Seq<char>,
) -> Seq<char> {
    if provider.recognizes(device) {
        provider.info_spec(room_name, device) + "\n"@
    } else {
        Seq::empty()
    }
}

/// The text contributed by one room: the lines of its devices, in order.
pub open spec fn room_lines<P: DeviceInfoProvider>(
    provider: &P,
    room_name: Seq<char>,
    devices: Seq<Seq<char>>,
) -> Seq<char>
    decreases devices.len(),
{
    if devices.len() == 0 {
        Seq::empty()
    } else {
        room_lines(provider, room_name, devices.drop_last()) + device_line(
            provider,
            room_name,
            devices.last(),
        )
    }
}

/// The whole report text: the rooms' lines, in room order.
pub open spec fn house_lines<P: DeviceInfoProvider>(provider: &P, rooms: Seq<Room>) -> Seq<char>
    decreases rooms.len(),
{
    if rooms.len() == 0 {
        Seq::empty()
    } else {
        house_lines(provider, rooms.drop_last()) + room_lines(
            provider,
            rooms.last().name@,
            rooms.last().devices_spec(),
        )
    }
}

/// A named collection of rooms with pairwise distinct names.
pub struct SmartHouse {
    pub name: String,
    pub rooms: Vec<Room>,
}

impl SmartHouse {
    /// The house's rooms.
    pub open spec fn rooms_spec(&self) -> Seq<Room> {
        self.rooms@
    }

    /// Whether the house has a room of the given name.
    pub open spec fn has_room(&self, name: Seq<char>) -> bool {
        exists|i: int| 0 <= i < self.rooms@.len() && self.rooms@[i].name@ == name
    }

    /// The room of the given name, when there is one.
    pub open spec fn room_named(&self, name: Seq<char>) -> Room
        recommends
            self.has_room(name),
    {
        self.rooms@[choose|i: int| 0 <= i < self.rooms@.len() && self.rooms@[i].name@ == name]
    }

    /// Well-formedness: room names are pairwise distinct and every room is
    /// itself well-formed.
    pub open spec fn wf(&self) -> bool {
        &&& forall|i: int, j: int|
            0 <= i < j < self.rooms@.len() ==> self.rooms@[i].name@ != self.rooms@[j].name@
        &&& forall|i: int| 0 <= i < self.rooms@.len() ==> (#[trigger] self.rooms@[i]).wf()
    }

    pub fn new(name: String) -> (r: SmartHouse)
        ensures
            r.wf(),
            r.name == name,
            r.rooms@ == Seq::<Room>::empty(),
    {
        let rooms: Vec<Room> = Vec::new();
        SmartHouse { name, rooms }
    }

    /// The index of the room carrying `name`, when the house has one.
    fn find_room(&self, name: &str) -> (r: Option<usize>)
        ensures
            r matches Some(i) ==> i < self.rooms@.len() && self.rooms@[i as int].name@ == name@,
            r is None ==> !self.has_room(name@),
    {
        let mut i: usize = 0;
        while i < self.rooms.len()
            invariant
                i <= self.rooms@.len(),
                forall|k: int| 0 <= k < i ==> self.rooms@[k].name@ != name@,
            decreases self.rooms@.len() - i,
        {
            if str_eq(self.rooms[i].name.as_str(), name) {
                return Some(i);
            }
            i += 1;
        }
        None
    }

    /// Inserts a room if no room of that name exists; on a name collision
    /// the house is unchanged and the room is dropped.
    pub fn add_room(&mut self, room: Room) -> (r: Option<bool>)
        requires
            old(self).wf(),
            room.wf(),
        ensures
            final(self).wf(),
            final(self).name == old(self).name,
            old(self).has_room(room.name@) ==> r == None::<bool> && final(self).rooms@ == old(
                self,
            ).rooms@,
            !old(self).has_room(room.name@) ==> r == Some(true) && final(self).rooms@ == old(
                self,
            ).rooms@.push(room),
    {
        match self.find_room(room.name.as_str()) {
            Some(_) => None,
            None => {
                let ghost before = self.rooms@;
                self.rooms.push(room);
                proof {
                    assert forall|i: int, j: int|
                        0 <= i < j < self.rooms@.len() implies self.rooms@[i].name@
                        != self.rooms@[j].name@ by {
                        if j == before.len() as int {
                            assert(self.rooms@[i] == before[i]);
                        }
                    }
                }
                Some(true)
            },
        }
    }

    /// The rooms of the house, or nothing when it has none.
    pub fn get_rooms(&self) -> (r: Option<&Vec<Room>>)
        ensures
            self.rooms@.len() == 0 ==> r is None,
            self.rooms@.len() > 0 ==> (r matches Some(v) && v@ == self.rooms@),
    {
        if self.rooms.is_empty() {
            None
        } else {
            Some(&self.rooms)
        }
    }

    /// The device-name set of the named room, or nothing when the room is
    /// missing or registers no device.
    pub fn devices(&self, room: &str) -> (r: Option<&Vec<String>>)
        requires
            self.wf(),
        ensures
            r matches Some(v) ==> self.has_room(room@) && v.deep_view() == self.room_named(
                room@,
            ).devices_spec() && v@.len() > 0,
            r is None ==> !self.has_room(room@) || self.room_named(room@).devices_spec().len()
                == 0,
    {
        match self.find_room(room) {
            Some(i) => {
                proof {
                    let c = choose|k: int|
                        0 <= k < self.rooms@.len() && self.rooms@[k].name@ == room@;
                    assert(c == i as int);
                }
                self.rooms[i].devices()
            },
            None => None,
        }
    }

    /// Scans every room and every device name in it, asking the provider
    /// for a line; unresolved devices are skipped. Fails when the house
    /// has no rooms, or when not a single line was produced.
    pub fn create_report<P: DeviceInfoProvider>(&self, provider: &P) -> (r: Result<
        String,
        ReportError,
    >)
        ensures
            self.rooms@.len() == 0 <==> r == Err::<String, ReportError>(ReportError::RoomsNotFound),
            (self.rooms@.len() > 0 && house_lines(provider, self.rooms@).len() == 0) <==> r == Err::<String, ReportError>(
                ReportError::NoInfoProvided,
            ),
            (self.rooms@.len() > 0 && house_lines(provider, self.rooms@).len() > 0) ==> (
            r matches Ok(s) && s@ == house_lines(provider, self.rooms@)),
            r matches Ok(s) ==> s@ == house_lines(provider, self.rooms@) && s@.len() > 0,
    {
        if self.rooms.is_empty() {
            return Err(ReportError::RoomsNotFound);
        }
        let mut report = String::new();
        let mut i: usize = 0;
        while i < self.rooms.len()
            invariant
                i <= self.rooms@.len(),
                report@ == house_lines(provider, self.rooms@.take(i as int)),
            decreases self.rooms@.len() - i,
        {
            let room = &self.rooms[i];
            let ghost room_start = report@;
            let mut j: usize = 0;
            while j < room.devices.len()
                invariant
                    j <= room.devices@.len(),
                    room == &self.rooms@[i as int],
                    report@ == room_start + room_lines(
                        provider,
                        room.name@,
                        room.devices_spec().take(j as int),
                    ),
                decreases room.devices@.len() - j,
            {
                proof {
                    let taken = room.devices_spec().take(j + 1);
                    assert(taken.drop_last() =~= room.devices_spec().take(j as int));
                    assert(taken.last() == room.devices_spec()[j as int]);
                }
                match provider.get_info(room.name.as_str(), room.devices[j].as_str()) {
                    Some(info) => {
                        report.append(info.as_str());
                        report.append("\n");
                    },
                    None => {},
                }
                j += 1;
            }
            proof {
                assert(room.devices_spec().take(room.devices@.len() as int)
                    =~= room.devices_spec());
                let taken = self.rooms@.take(i + 1);
                assert(taken.drop_last() =~= self.rooms@.take(i as int));
                assert(taken.last() == self.rooms@[i as int]);
            }
            i += 1;
        }
        proof {
            assert(self.rooms@.take(self.rooms@.len() as int) =~= self.rooms@);
        }
        if report.as_str().is_empty() {
            return Err(ReportError::NoInfoProvided);
        }
        Ok(report)
    }
}

/// Law: when the house has rooms but the provider recognizes none of the
/// devices listed in any of them, the report text is empty, and
/// `SmartHouse::create_report` therefore signals `NoInfoProvided`.
pub proof fn lemma_unrecognized_provider_gives_no_lines<P: DeviceInfoProvider>(
    provider: &P,
    rooms: Seq<Room>,
)
    requires
        forall|i: int, d: Seq<char>|
            0 <= i < rooms.len() && #[trigger] rooms[i].devices_spec().contains(d)
                ==> !provider.recognizes(d),
    ensures
        house_lines(provider, rooms).len() == 0,
    decreases rooms.len(),
{
    if rooms.len() > 0 {
        let prefix = rooms.drop_last();
        assert(rooms[rooms.len() - 1] == rooms.last());
        assert forall|i: int, d: Seq<char>|
            0 <= i < prefix.len() && #[trigger] prefix[i].devices_spec().contains(d)
            implies !provider.recognizes(d) by {
            assert(prefix[i] == rooms[i]);
        }
        lemma_unrecognized_provider_gives_no_lines(provider, prefix);
        lemma_unrecognized_room_gives_no_lines(
            provider,
            rooms.last().name@,
            rooms.last().devices_spec(),
        );
    }
}

/// A room none of whose devices the provider recognizes contributes no text.
proof fn lemma_unrecognized_room_gives_no_lines<P: DeviceInfoProvider>(
    provider: &P,
    room_name: Seq<char>,
    devices: Seq<Seq<char>>,
)
    requires
        forall|d: Seq<char>| devices.contains(d) ==> !provider.recognizes(d),
    ensures
        room_lines(provider, room_name, devices).len() == 0,
    decreases devices.len(),
{
    if devices.len() > 0 {
        let prefix = devices.drop_last();
        assert(devices[devices.len() - 1] == devices.last());
        assert(devices.contains(devices.last()));
        assert forall|d: Seq<char>| prefix.contains(d) implies !provider.recognizes(d) by {
            let k = choose|k: int| 0 <= k < prefix.len() && prefix[k] == d;
            assert(devices[k] == d);
            assert(devices.contains(d));
        }
        lemma_unrecognized_room_gives_no_lines(provider, room_name, prefix);
    }
}

} // verus!
