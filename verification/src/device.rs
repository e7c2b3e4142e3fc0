//! The Spotify Connect device that a command goes to.

use vstd::prelude::*;
use crate::app::App;
use crate::playback::{Device, Playback};

verus! {

/// The first device with this name.
pub open spec fn named(devices: Seq<Device>, name: Seq<char>) -> Option<Device>
    decreases devices.len(),
{
    if devices.len() == 0 {
        None
    } else if devices[0].name@ == name {
        Some(devices[0])
    } else {
        named(devices.drop_first(), name)
    }
}

/// Whether a device has this id.
pub open spec fn has_id(d: Device, id: Seq<char>) -> bool {
    match d.id {
        Some(x) => x@ == id,
        None => false,
    }
}

/// The first device with this id.
pub open spec fn with_id(devices: Seq<Device>, id: Seq<char>) -> Option<Device>
    decreases devices.len(),
{
    if devices.len() == 0 {
        None
    } else if has_id(devices[0], id) {
        Some(devices[0])
    } else {
        with_id(devices.drop_first(), id)
    }
}

/// The first device that is active.
pub open spec fn active(devices: Seq<Device>) -> Option<Device>
    decreases devices.len(),
{
    if devices.len() == 0 {
        None
    } else if devices[0].is_active {
        Some(devices[0])
    } else {
        active(devices.drop_first())
    }
}

/// The id of a device that may be absent.
pub open spec fn id_in(d: Option<Device>) -> Option<String> {
    match d {
        Some(x) => x.id,
        None => None,
    }
}

/// The first of two ids that is there.
pub open spec fn first_of(a: Option<String>, b: Option<String>) -> Option<String> {
    match a {
        Some(x) => Some(x),
        None => b,
    }
}

/// The first device of a list.
pub open spec fn head(devices: Seq<Device>) -> Option<Device> {
    if devices.len() > 0 {
        Some(devices[0])
    } else {
        None
    }
}

/// The id of the device on which something plays.
pub open spec fn playing_on(playback: Option<Playback>) -> Option<String> {
    match playback {
        Some(p) => p.device.id,
        None => None,
    }
}

pub(crate) fn copy_id(id: &Option<String>) -> (r: Option<String>)
    ensures
        r == *id,
{
    match id {
        Some(x) => Some(x.clone()),
        None => None,
    }
}

/// For how many seconds a list of devices is used before it is loaded again.
pub const DEVICES_KEPT_S: u64 = 30;

impl App {
    /// The preferred device: by name first, then by id; none without a
    /// preference.
    pub open spec fn preferred(self) -> Option<String> {
        if self.default_device@.len() == 0 {
            None
        } else {
            first_of(
                id_in(named(self.devices@, self.default_device@)),
                id_in(with_id(self.devices@, self.default_device@)),
            )
        }
    }

    /// The device that a command goes to: the one on which something plays,
    /// then the preferred one if it is online, then the active one, then the
    /// first one online.
    pub open spec fn target(self) -> Option<String> {
        first_of(
            playing_on(self.playback),
            first_of(
                self.preferred(),
                first_of(id_in(active(self.devices@)), id_in(head(self.devices@))),
            ),
        )
    }

    /// Whether the list of devices has to be loaded before a device can be
    /// chosen: while nothing plays, where it was never loaded or is too old.
    /// `age_s` is how many seconds ago it was loaded.
    pub fn wants_devices(&self, age_s: Option<u64>) -> (r: bool)
        ensures
            r == (playing_on(self.playback) is None && match age_s {
                Some(s) => s > DEVICES_KEPT_S,
                None => true,
            }),
    {
        let playing: bool = match &self.playback {
            Some(p) => p.device.id.is_some(),
            None => false,
        };
        let stale: bool = match age_s {
            Some(s) => s > DEVICES_KEPT_S,
            None => true,
        };
        !playing && stale
    }

    fn named_device(&self) -> (r: Option<String>)
        ensures
            r == id_in(named(self.devices@, self.default_device@)),
    {
        let ghost all = self.devices@;
        let mut i: usize = 0;
        assert(all.skip(0) =~= all);
        while i < self.devices.len()
            invariant
                all == self.devices@,
                i <= all.len(),
                named(all, self.default_device@) == named(all.skip(i as int), self.default_device@),
            decreases self.devices.len() - i,
        {
            assert(all.skip(i as int)[0] == all[i as int]);
            if self.devices[i].name == self.default_device {
                return copy_id(&self.devices[i].id);
            }
            assert(all.skip(i as int).drop_first() =~= all.skip(i as int + 1));
            i = i + 1;
        }
        None
    }

    fn device_with_id(&self) -> (r: Option<String>)
        ensures
            r == id_in(with_id(self.devices@, self.default_device@)),
    {
        let ghost all = self.devices@;
        let mut i: usize = 0;
        assert(all.skip(0) =~= all);
        while i < self.devices.len()
            invariant
                all == self.devices@,
                i <= all.len(),
                with_id(all, self.default_device@) == with_id(all.skip(i as int), self.default_device@),
            decreases self.devices.len() - i,
        {
            assert(all.skip(i as int)[0] == all[i as int]);
            if let Some(x) = &self.devices[i].id {
                if *x == self.default_device {
                    return Some(x.clone());
                }
            }
            assert(all.skip(i as int).drop_first() =~= all.skip(i as int + 1));
            i = i + 1;
        }
        None
    }

    fn active_device(&self) -> (r: Option<String>)
        ensures
            r == id_in(active(self.devices@)),
    {
        let ghost all = self.devices@;
        let mut i: usize = 0;
        assert(all.skip(0) =~= all);
        while i < self.devices.len()
            invariant
                all == self.devices@,
                i <= all.len(),
                active(all) == active(all.skip(i as int)),
            decreases self.devices.len() - i,
        {
            assert(all.skip(i as int)[0] == all[i as int]);
            if self.devices[i].is_active {
                return copy_id(&self.devices[i].id);
            }
            assert(all.skip(i as int).drop_first() =~= all.skip(i as int + 1));
            i = i + 1;
        }
        None
    }

    /// Picks a device for a command. Spotify refuses a command that names
    /// none when nothing is active.
    pub fn resolve_device_id(&self) -> (r: Option<String>)
        ensures
            r == self.target(),
    {
        if let Some(p) = &self.playback {
            if let Some(id) = &p.device.id {
                return Some(id.clone());
            }
        }
        if !self.default_device.as_str().is_empty() {
            if let Some(id) = self.named_device() {
                return Some(id);
            }
            if let Some(id) = self.device_with_id() {
                return Some(id);
            }
        }
        if let Some(id) = self.active_device() {
            return Some(id);
        }
        if self.devices.len() > 0 {
            copy_id(&self.devices[0].id)
        } else {
            None
        }
    }
}

proof fn lemma_found_is_listed(devices: Seq<Device>, text: Seq<char>)
    ensures
        named(devices, text) is Some ==> devices.contains(named(devices, text)->0),
        with_id(devices, text) is Some ==> devices.contains(with_id(devices, text)->0),
        active(devices) is Some ==> devices.contains(active(devices)->0),
    decreases devices.len(),
{
    if devices.len() > 0 {
        let t = devices.drop_first();
        lemma_found_is_listed(t, text);
        assert(devices.contains(devices[0]));
        assert forall|d: Device| t.contains(d) implies devices.contains(d) by {
            let k = choose|k: int| 0 <= k < t.len() && t[k] == d;
            assert(devices[k + 1] == d);
        }
    }
}

/// A command goes to where something plays, or to a device that is online.
pub proof fn law_target_is_playing_or_online(a: App)
    ensures
        a.target() is Some ==> a.target() == playing_on(a.playback) || exists|i: int|
            0 <= i < a.devices@.len() && (#[trigger] a.devices@[i]).id == a.target(),
{
    lemma_found_is_listed(a.devices@, a.default_device@);
    if a.target() is Some && a.target() != playing_on(a.playback) {
        let d: Device = if a.preferred() is Some {
            if id_in(named(a.devices@, a.default_device@)) is Some {
                named(a.devices@, a.default_device@)->0
            } else {
                with_id(a.devices@, a.default_device@)->0
            }
        } else if id_in(active(a.devices@)) is Some {
            active(a.devices@)->0
        } else {
            a.devices@[0]
        };
        assert(a.devices@.contains(d));
        let i = choose|i: int| 0 <= i < a.devices@.len() && a.devices@[i] == d;
        assert(a.devices@[i].id == a.target());
    }
}

/// While something plays on a device, commands go there, whatever else is
/// online or preferred.
pub proof fn law_target_is_where_it_plays(a: App)
    requires
        playing_on(a.playback) is Some,
    ensures
        a.target() == playing_on(a.playback),
{
}

// ---- Laws of the target ---------------------------------------------

/// The device on which something plays is the one that Spotify names, and
/// commands go there.
pub proof fn law_commands_go_where_it_plays(a: App, p: Playback)
    ensures
        playing_on(Some(p)) == p.device.id,
        playing_on(None) is None,
        a.playback == Some(p) && p.device.id is Some ==> a.target() == p.device.id,
{
}

proof fn lemma_first_with(devices: Seq<Device>, text: Seq<char>, i: int)
    requires
        0 <= i < devices.len(),
    ensures
        devices[i].name@ == text && (forall|j: int| 0 <= j < i ==> (#[trigger] devices[j]).name@ != text) ==> named(
            devices,
            text,
        ) == Some(devices[i]),
        has_id(devices[i], text) && (forall|j: int| 0 <= j < i ==> !has_id(#[trigger] devices[j], text)) ==> with_id(
            devices,
            text,
        ) == Some(devices[i]),
        devices[i].is_active && (forall|j: int| 0 <= j < i ==> !(#[trigger] devices[j]).is_active) ==> active(devices)
            == Some(devices[i]),
    decreases i,
{
    if i > 0 {
        let t = devices.drop_first();
        lemma_first_with(t, text, i - 1);
        assert(t[i - 1] == devices[i]);
        assert forall|j: int| 0 <= j < i - 1 implies t[j] == devices[j + 1] by {}
        assert(devices[0] == devices[0]);
    }
}

proof fn lemma_none_with(devices: Seq<Device>, text: Seq<char>)
    ensures
        (forall|j: int| 0 <= j < devices.len() && (#[trigger] devices[j]).name@ == text ==> devices[j].id is None) ==> id_in(
            named(devices, text),
        ) is None,
        (forall|j: int| 0 <= j < devices.len() ==> !has_id(#[trigger] devices[j], text)) ==> with_id(devices, text) is None,
        (forall|j: int| 0 <= j < devices.len() && (#[trigger] devices[j]).is_active ==> devices[j].id is None) ==> id_in(
            active(devices),
        ) is None,
    decreases devices.len(),
{
    if devices.len() > 0 {
        let t = devices.drop_first();
        lemma_none_with(t, text);
        assert forall|j: int| 0 <= j < t.len() implies t[j] == devices[j + 1] by {}
        assert(devices[0] == devices[0]);
    }
}

/// While nothing plays, a preference goes before all that is active: the first
/// device of that name.
pub proof fn law_the_preferred_name_comes_first(a: App, i: int)
    requires
        a.playback is None || (a.playback->0).device.id is None,
        a.default_device@.len() > 0,
        0 <= i < a.devices@.len(),
        a.devices@[i].name@ == a.default_device@,
        a.devices@[i].id is Some,
        forall|j: int| 0 <= j < i ==> (#[trigger] a.devices@[j]).name@ != a.default_device@,
    ensures
        a.target() == a.devices@[i].id,
{
    lemma_first_with(a.devices@, a.default_device@, i);
}

/// A preference that is no device's name, or that of one without an id, is
/// taken for an id. `n` is the first device of that name, or -1.
pub proof fn law_the_preferred_id_comes_next(a: App, n: int, i: int)
    requires
        a.playback is None || (a.playback->0).device.id is None,
        a.default_device@.len() > 0,
        n == -1 || (0 <= n < a.devices@.len() && a.devices@[n].name@ == a.default_device@ && a.devices@[n].id is None),
        forall|j: int|
            0 <= j < (if n == -1 { a.devices@.len() as int } else { n }) ==> (#[trigger] a.devices@[j]).name@ != a.default_device@,
        0 <= i < a.devices@.len(),
        a.devices@[i].id is Some,
        (a.devices@[i].id->0)@ == a.default_device@,
        forall|j: int| 0 <= j < i && (#[trigger] a.devices@[j]).id is Some ==> (a.devices@[j].id->0)@ != a.default_device@,
    ensures
        a.target() == a.devices@[i].id,
{
    lemma_none_with(a.devices@, a.default_device@);
    if n >= 0 {
        lemma_first_with(a.devices@, a.default_device@, n);
    }
    lemma_first_with(a.devices@, a.default_device@, i);
}

/// Without a preference, or with one that is not online, the first active
/// device is taken; where none is active, or that one has no id, the first of
/// the list; and none where there is no device at all. `n` is the first device
/// of the preferred name, or -1, and `i` the first active one, or -1.
pub proof fn law_without_a_preference_the_active_or_the_first(a: App, n: int, i: int)
    requires
        a.playback is None || (a.playback->0).device.id is None,
        a.default_device@.len() == 0 || {
            &&& n == -1 || (0 <= n < a.devices@.len() && a.devices@[n].name@ == a.default_device@ && a.devices@[n].id is None)
            &&& forall|j: int|
                0 <= j < (if n == -1 { a.devices@.len() as int } else { n }) ==> (#[trigger] a.devices@[j]).name@
                    != a.default_device@
            &&& forall|j: int|
                0 <= j < a.devices@.len() && (#[trigger] a.devices@[j]).id is Some ==> (a.devices@[j].id->0)@
                    != a.default_device@
        },
        i == -1 || (0 <= i < a.devices@.len() && a.devices@[i].is_active),
        forall|j: int| 0 <= j < (if i == -1 { a.devices@.len() as int } else { i }) ==> !(#[trigger] a.devices@[j]).is_active,
    ensures
        i >= 0 && a.devices@[i].id is Some ==> a.target() == a.devices@[i].id,
        a.devices@.len() > 0 && (i == -1 || a.devices@[i].id is None) ==> a.target() == a.devices@[0].id,
        a.devices@.len() == 0 ==> a.target() is None,
{
    lemma_none_with(a.devices@, a.default_device@);
    if a.default_device@.len() > 0 && n >= 0 {
        lemma_first_with(a.devices@, a.default_device@, n);
    }
    if i >= 0 {
        lemma_first_with(a.devices@, a.default_device@, i);
    }
}

/// A list of devices is used for half a minute.
pub proof fn law_devices_are_kept_for_half_a_minute()
    ensures
        DEVICES_KEPT_S == 30,
{
}

}
