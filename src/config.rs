use vstd::prelude::*;

verus! {

/// Location tag of an inverter whose configuration names none.
pub fn default_inverter_location() -> (r: String)
    ensures
        r@ == "no_location"@,
{
    "no_location".to_owned()
}

/// Address of an inverter's logger, as four octets, when none is configured.
pub fn default_inverter_ip_octets() -> (r: [u8; 4])
    ensures
        r@ == seq![10u8, 10u8, 100u8, 254u8],
{
    let r: [u8; 4] = [10, 10, 100, 254];
    proof {
        assert(r@ =~= seq![10u8, 10u8, 100u8, 254u8]);
    }
    r
}

/// TCP port of an inverter's logger when none is configured.
pub fn default_inverter_port() -> (r: u16)
    ensures
        r == 8899,
{
    8899
}

/// Log level when none is configured.
pub fn default_log_level() -> (r: String)
    ensures
        r@ == "info"@,
{
    "info".to_owned()
}

/// Measurement name under which readings are stored.
pub fn default_measurement_name() -> (r: String)
    ensures
        r@ == "deye_dual"@,
{
    "deye_dual".to_owned()
}

/// Database that readings are stored in.
pub fn default_database_name() -> (r: String)
    ensures
        r@ == "solar"@,
{
    "solar".to_owned()
}

/// Port of the time-series database.
pub fn default_influx_port() -> (r: u16)
    ensures
        r == 8086,
{
    8086
}

/// Seconds between two polls of an inverter.
pub fn default_monitoring_intervall() -> (r: u32)
    ensures
        r == 300,
{
    300
}

/// Seconds that connecting, reading or writing may take.
pub fn default_monitoring_timeout() -> (r: u32)
    ensures
        r == 10,
{
    10
}

} // verus!
