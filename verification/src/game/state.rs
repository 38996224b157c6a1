use vstd::prelude::*;

use crate::table::HidMap;

verus! {

pub struct Game {}

pub struct Team {}

/// A device that announced itself to the reflector.
#[derive(Debug)]
pub struct Device {
    pub hid: String,
    pub device_type: i32,
}

impl Device {
    /// The device's hardware id.
    pub fn hid(&self) -> (r: &String)
        ensures
            *r == self.hid,
    {
        &self.hid
    }

    /// The device type that the device reported.
    pub fn device_type(&self) -> (r: i32)
        ensures
            r == self.device_type,
    {
        self.device_type
    }
}

pub struct Player {}

pub struct Binding {}

/// What the core knows of the game: the registered devices, by hardware id.
pub struct State {
    pub devices: HidMap<Device>,
}

impl Default for State {
    fn default() -> (r: Self)
        ensures
            r.devices@ == Map::<Seq<char>, Device>::empty(),
    {
        State { devices: HidMap::new() }
    }
}

} // verus!
