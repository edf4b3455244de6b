//! The audio menus beside the call controls: which of them is open, the
//! devices one of them lists and the name shown for the active device.

use vstd::prelude::*;
use crate::display::sidebar::{sort_chosen_by_key, sorted_by_key};
use crate::display::system::strings_view;

verus! {

broadcast use vstd::string::group_string_axioms;

/// The two audio menus: the microphone's and the headphones'.
#[derive(Clone, Copy, PartialEq, Eq, Structural)]
pub enum AudioMenu {
    Mute,
    Deafen,
}

/// What clicking a menu's caret leaves open, and whether the devices are
/// to be fetched anew.
pub open spec fn toggled_menu(open: Option<AudioMenu>, which: AudioMenu) -> (Option<AudioMenu>, bool) {
    if open == Some(which) {
        (None, false)
    } else {
        (Some(which), true)
    }
}

/// Clicking a menu's caret closes the menu when it is open; otherwise it
/// opens it in place of the other one and asks for the devices.
pub fn toggle_audio_menu(open: Option<AudioMenu>, which: AudioMenu) -> (r: (Option<AudioMenu>, bool))
    ensures
        r == toggled_menu(open, which),
{
    let is_open = match open {
        Some(m) => m == which,
        None => false,
    };
    if is_open {
        (None, false)
    } else {
        (Some(which), true)
    }
}

/// The device listed first, as "System Default": the system's default
/// output device or, when that is not known, the active output device.
pub open spec fn default_pick(default_output: Option<Seq<char>>, active_output: Option<Seq<char>>) -> Option<
    Seq<char>,
> {
    match default_output {
        Some(d) => Some(d),
        None => active_output,
    }
}

pub open spec fn opt_text(o: Option<String>) -> Option<Seq<char>> {
    match o {
        Some(s) => Some(s@),
        None => None,
    }
}

/// Whether a device with the id is listed below the default one.
pub open spec fn listed(id: Seq<char>, default_id: Option<Seq<char>>) -> bool {
    match default_id {
        Some(d) => id != d,
        None => true,
    }
}

pub open spec fn ids_of(devices: Seq<(String, String)>) -> Seq<Seq<char>> {
    devices.map_values(|d: (String, String)| d.0@)
}

/// The devices of a menu: the default one, when known, then the others by
/// position in the device list.
pub struct DeviceMenu {
    pub default_id: Option<String>,
    pub entries: Vec<usize>,
}

/// Lists the devices, given as id and name, for a menu: the default device
/// first, then every device with another id, sorted by id and, among equal
/// ids, in list order.
pub fn device_menu(
    devices: &Vec<(String, String)>,
    default_output: &Option<String>,
    active_output: &Option<String>,
) -> (m: DeviceMenu)
    ensures
        opt_text(m.default_id) == default_pick(opt_text(*default_output), opt_text(*active_output)),
        sorted_by_key(ids_of(devices@), m.entries@),
        forall|x: int|
            #![trigger devices@[x]]
            0 <= x < devices@.len() ==> (m.entries@.contains(x as usize) <==> listed(devices@[x].0@, opt_text(m.default_id))),
{
    let pick: Option<String> = match default_output {
        Some(d) => Some(d.clone()),
        None => match active_output {
            Some(a) => Some(a.clone()),
            None => None,
        },
    };
    let mut ids: Vec<String> = Vec::new();
    let mut keep: Vec<bool> = Vec::new();
    let mut i: usize = 0;
    while i < devices.len()
        invariant
            i <= devices@.len(),
            ids@.len() == i,
            keep@.len() == i,
            forall|k: int| 0 <= k < i ==> (#[trigger] ids@[k])@ == devices@[k].0@,
            forall|k: int|
                0 <= k < i ==> (#[trigger] keep@[k]) == listed(devices@[k].0@, opt_text(pick)),
        decreases devices.len() - i,
    {
        let id = devices[i].0.clone();
        let k = match &pick {
            Some(d) => !(id == *d),
            None => true,
        };
        ids.push(id);
        keep.push(k);
        i = i + 1;
    }
    proof {
        assert(strings_view(ids@) =~= ids_of(devices@));
    }
    let entries = sort_chosen_by_key(&ids, &keep);
    assert forall|x: int| #![trigger devices@[x]] 0 <= x < devices@.len() implies (entries@.contains(x as usize)
        <==> listed(devices@[x].0@, opt_text(pick))) by {
        assert(keep@[x] == listed(devices@[x].0@, opt_text(pick)));
    }
    DeviceMenu { default_id: pick, entries }
}

/// The first position of a device with the id.
pub open spec fn first_with_id(devices: Seq<(String, String)>, id: Seq<char>) -> Option<int>
    decreases devices.len(),
{
    if devices.len() == 0 {
        None
    } else {
        match first_with_id(devices.drop_last(), id) {
            Some(k) => Some(k),
            None => if devices.last().0@ == id {
                Some(devices.len() - 1)
            } else {
                None
            },
        }
    }
}

/// The name shown for the active device: its name in the input device
/// list, or "System Default" when there is none or it is not listed.
pub open spec fn active_label(input_devices: Seq<(String, String)>, active: Option<Seq<char>>) -> Seq<char> {
    match active {
        Some(id) => match first_with_id(input_devices, id) {
            Some(k) => input_devices[k].1@,
            None => "System Default"@,
        },
        None => "System Default"@,
    }
}

pub fn active_device_label(input_devices: &Vec<(String, String)>, active: &Option<String>) -> (l: String)
    ensures
        l@ == active_label(input_devices@, opt_text(*active)),
{
    match active {
        None => String::from_str("System Default"),
        Some(id) => {
            let mut i: usize = 0;
            while i < input_devices.len()
                invariant
                    i <= input_devices@.len(),
                    first_with_id(input_devices@.take(i as int), id@) is None,
                    opt_text(*active) == Some(id@),
                decreases input_devices.len() - i,
            {
                proof {
                    assert(input_devices@.take(i + 1).drop_last() =~= input_devices@.take(i as int));
                }
                if input_devices[i].0 == *id {
                    proof {
                        let pre = input_devices@.take(i + 1);
                        assert(pre.last() == input_devices@[i as int]);
                        assert(first_with_id(pre, id@) == Some(i as int));
                        lemma_first_with_prefix(input_devices@, id@, i + 1);
                    }
                    return input_devices[i].1.clone();
                }
                i = i + 1;
            }
            assert(input_devices@.take(i as int) =~= input_devices@);
            String::from_str("System Default")
        },
    }
}

/// Where the id occurs in a prefix, the first position in the whole list
/// is the one in the prefix.
proof fn lemma_first_with_prefix(devices: Seq<(String, String)>, id: Seq<char>, k: int)
    requires
        0 <= k <= devices.len(),
        first_with_id(devices.take(k), id) is Some,
    ensures
        first_with_id(devices, id) == first_with_id(devices.take(k), id),
    decreases devices.len(),
{
    if k < devices.len() {
        assert(devices.drop_last().take(k) =~= devices.take(k));
        lemma_first_with_prefix(devices.drop_last(), id, k);
    } else {
        assert(devices.take(k) =~= devices);
    }
}

} // verus!
