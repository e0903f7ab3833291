use vstd::prelude::*;

verus! {

/// What device selection reads of one queue family.
#[derive(Clone, Copy, Debug, PartialEq, Eq, Structural)]
pub struct QueueFamily {
    pub graphics: bool,
    pub presents_to_surface: bool,
}

/// What device selection reads of one physical device.
pub struct DeviceCandidate {
    /// The device is of the vendor the renderer requires.
    pub preferred_vendor: bool,
    pub families: Vec<QueueFamily>,
}

/// A family that can both draw and present.
pub open spec fn family_usable(f: QueueFamily) -> bool {
    f.graphics && f.presents_to_surface
}

/// A device that can be used, with the family it would use.
pub open spec fn device_usable(d: DeviceCandidate) -> bool {
    d.preferred_vendor && exists|j: int| 0 <= j < d.families@.len() && family_usable(#[trigger] d.families@[j])
}

/// Index of the first family of `d` that can draw and present.
fn first_usable_family(d: &DeviceCandidate) -> (r: Option<usize>)
    ensures
        r is None <==> !exists|j: int| 0 <= j < d.families@.len() && family_usable(#[trigger] d.families@[j]),
        r matches Some(j) ==> j < d.families@.len() && family_usable(d.families@[j as int])
            && forall|k: int| 0 <= k < j ==> !family_usable(#[trigger] d.families@[k]),
{
    let mut j: usize = 0;
    while j < d.families.len()
        invariant
            j <= d.families@.len(),
            forall|k: int| 0 <= k < j ==> !family_usable(#[trigger] d.families@[k]),
        decreases d.families@.len() - j,
    {
        let f = d.families[j];
        if f.graphics && f.presents_to_surface {
            return Some(j);
        }
        j = j + 1;
    }
    None
}

/// The first usable device, in enumeration order, with its first family
/// that can both draw and present to the window's surface. `None` when no
/// device qualifies; the renderer cannot run then.
pub fn select_device(devices: &Vec<DeviceCandidate>) -> (r: Option<(usize, usize)>)
    ensures
        r is None <==> forall|i: int| 0 <= i < devices@.len() ==> !device_usable(#[trigger] devices@[i]),
        r matches Some((i, j)) ==> {
            &&& i < devices@.len()
            &&& device_usable(devices@[i as int])
            &&& forall|k: int| 0 <= k < i ==> !device_usable(#[trigger] devices@[k])
            &&& j < devices@[i as int].families@.len()
            &&& family_usable(devices@[i as int].families@[j as int])
            &&& forall|k: int| 0 <= k < j ==> !family_usable(#[trigger] devices@[i as int].families@[k])
        },
{
    let mut i: usize = 0;
    while i < devices.len()
        invariant
            i <= devices@.len(),
            forall|k: int| 0 <= k < i ==> !device_usable(#[trigger] devices@[k]),
        decreases devices@.len() - i,
    {
        let d = &devices[i];
        if d.preferred_vendor {
            match first_usable_family(d) {
                Some(j) => {
                    return Some((i, j));
                },
                None => {},
            }
        }
        i = i + 1;
    }
    None
}

} // verus!
