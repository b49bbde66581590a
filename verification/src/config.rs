use vstd::prelude::*;

verus! {

/// Network credentials the surrounding application compiles into the image;
/// the driver itself never reads them.
#[derive(Clone, Copy, Debug)]
pub struct Config {
    pub ssid: &'static str,
    pub psk: &'static str,
}

impl Config {
    pub fn new(ssid: &'static str, psk: &'static str) -> (c: Config)
        ensures
            c.ssid == ssid,
            c.psk == psk,
    {
        Config { ssid, psk }
    }
}

} // verus!
