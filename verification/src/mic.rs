//! Input devices: what is shown of them, and how one is picked.

use vstd::prelude::*;

verus! {

/// A selectable input device.
#[derive(Debug, PartialEq, Eq)]
pub struct DeviceInfo {
    pub name: String,
    pub is_default: bool,
}

impl Clone for DeviceInfo {
    fn clone(&self) -> (copy: Self)
        ensures
            copy == *self,
    {
        DeviceInfo { name: self.name.clone(), is_default: self.is_default }
    }
}

/// The names of the devices that have one, in order.
pub open spec fn named(names: Seq<Option<String>>) -> Seq<Seq<char>>
    decreases names.len(),
{
    if names.len() == 0 {
        seq![]
    } else {
        match names.last() {
            Some(name) => named(names.drop_last()).push(name@),
            None => named(names.drop_last()),
        }
    }
}

/// Is `name` the name of the default device?
pub open spec fn is_default_name(name: Seq<char>, default_name: Option<String>) -> bool {
    default_name matches Some(default_name) && default_name@ == name
}

/// The devices for the UI's source picker: those with a name, and which of them is the
/// default.
pub fn device_list(names: &Vec<Option<String>>, default_name: &Option<String>) -> (devices: Vec<
    DeviceInfo,
>)
    ensures
        devices@.len() == named(names@).len(),
        forall|i: int|
            0 <= i < devices@.len() ==> (#[trigger] devices@[i]).name@ == named(names@)[i]
                && devices@[i].is_default == is_default_name(named(names@)[i], *default_name),
{
    let mut devices: Vec<DeviceInfo> = Vec::new();
    let mut i: usize = 0;
    assert(names@.take(0) =~= Seq::<Option<String>>::empty());
    while i < names.len()
        invariant
            i <= names@.len(),
            devices@.len() == named(names@.take(i as int)).len(),
            forall|k: int|
                0 <= k < devices@.len() ==> (#[trigger] devices@[k]).name@ == named(
                    names@.take(i as int),
                )[k] && devices@[k].is_default == is_default_name(
                    named(names@.take(i as int))[k],
                    *default_name,
                ),
        decreases names.len() - i,
    {
        assert(names@.take(i + 1).drop_last() =~= names@.take(i as int));
        assert(names@.take(i + 1).last() == names@[i as int]);
        if let Some(name) = &names[i] {
            let is_default = match default_name {
                Some(default_name) => *default_name == *name,
                None => false,
            };
            devices.push(DeviceInfo { name: name.clone(), is_default });
        }
        i += 1;
    }
    assert(names@.take(i as int) =~= names@);
    devices
}

/// The first device called `wanted`, if there is one.
pub fn find_device(names: &Vec<Option<String>>, wanted: &String) -> (found: Option<usize>)
    ensures
        match found {
            Some(i) => i < names@.len() && is_default_name(wanted@, names@[i as int]) && forall|
                k: int,
            |
                0 <= k < i ==> !is_default_name(wanted@, #[trigger] names@[k]),
            None => forall|k: int|
                0 <= k < names@.len() ==> !is_default_name(wanted@, #[trigger] names@[k]),
        },
{
    let mut i: usize = 0;
    while i < names.len()
        invariant
            i <= names@.len(),
            forall|k: int| 0 <= k < i ==> !is_default_name(wanted@, #[trigger] names@[k]),
        decreases names.len() - i,
    {
        if let Some(name) = &names[i] {
            if *name == *wanted {
                return Some(i);
            }
        }
        i += 1;
    }
    None
}

/// The label of a microphone before it is opened.
pub fn microphone_label(device_name: &Option<String>) -> (label: String)
    ensures
        label@ == match *device_name {
            Some(name) => name@,
            None => "Default microphone"@,
        },
{
    match device_name {
        Some(name) => name.clone(),
        None => "Default microphone".to_string(),
    }
}

/// Devices with a name are listed, all of them and in order; those without are left out. The
/// default is the one that has the default's name.
pub proof fn law_named_devices_are_listed(
    names: Seq<Option<String>>,
    name: String,
    default_name: String,
)
    ensures
        named(Seq::<Option<String>>::empty()).len() == 0,
        named(names.push(Some(name))) == named(names).push(name@),
        named(names.push(None)) == named(names),
        is_default_name(name@, Some(default_name)) <==> name@ == default_name@,
        !is_default_name(name@, None),
{
    assert(names.push(Some(name)).drop_last() =~= names);
    assert(names.push(None).drop_last() =~= names);
}

} // verus!
