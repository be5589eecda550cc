//! Build-time configuration of the lamp firmware: WiFi credentials for
//! the access point and the client, and the lamp's time zone.
use vstd::prelude::*;

verus! {

/// The configurable settings, with the defaults used when a deployment
/// overrides nothing.
#[derive(Clone, Copy, Debug)]
pub struct Config {
    pub wifi_ap_active: bool,
    pub wifi_client_ssid: &'static str,
    pub wifi_client_psk: &'static str,
    pub wifi_ap_ssid: &'static str,
    pub wifi_ap_psk: &'static str,
    pub time_zone: &'static str,
}

impl Default for Config {
    /// The defaults: no access point, no credentials, and the neutral
    /// time zone.
    fn default() -> (r: Config)
        ensures
            r.wifi_ap_active == false,
            r.wifi_client_ssid@.len() == 0,
            r.wifi_client_psk@.len() == 0,
            r.wifi_ap_ssid@.len() == 0,
            r.wifi_ap_psk@.len() == 0,
            r.time_zone@ == "Etc/GMT"@,
    {
        proof {
            reveal_strlit("");
            reveal_strlit("Etc/GMT");
        }
        Config {
            wifi_ap_active: false,
            wifi_client_ssid: "",
            wifi_client_psk: "",
            wifi_ap_ssid: "",
            wifi_ap_psk: "",
            time_zone: "Etc/GMT",
        }
    }
}

} // verus!
