//! Sensor readings from sysfs: locating the hardware monitors and reading
//! the values their files hold.
use vstd::prelude::*;

use std::path::PathBuf;

use crate::error::AppError;
use crate::text::{
    chars_of, eq_at, int_error_text, parse_u32, parse_u32_std, substring, trim, trim_window,
};

verus! {

#[verifier::external_type_specification]
#[verifier::external_body]
pub struct ExPathBuf(PathBuf);

/// Hardware monitor directories, by the sensor they provide.
pub struct HwmonPaths {
    /// CPU temperature (`k10temp`).
    pub k10temp: Option<PathBuf>,
    /// GPU temperatures (`amdgpu`), in the order found.
    pub amdgpu: Vec<PathBuf>,
    /// Fan speeds (`asus`): `fan1_input` and `fan2_input`.
    pub asus_fans: Option<PathBuf>,
}

impl HwmonPaths {
    /// No monitors found yet.
    pub fn new() -> (r: HwmonPaths)
        ensures
            r.k10temp is None,
            r.amdgpu@.len() == 0,
            r.asus_fans is None,
    {
        HwmonPaths { k10temp: None, amdgpu: Vec::new(), asus_fans: None }
    }

    /// Records the monitor directory `path`, whose `name` file holds `name`:
    /// `k10temp` is the CPU sensor, `amdgpu` a GPU sensor, `asus` the fans;
    /// other monitors are ignored. A later `k10temp` or `asus` replaces an
    /// earlier one.
    pub fn add_monitor(&mut self, path: PathBuf, name: &str)
        ensures
            trim(name@) == "k10temp"@ ==> final(self).k10temp == Some(path) && final(self).amdgpu
                == old(self).amdgpu && final(self).asus_fans == old(self).asus_fans,
            trim(name@) == "amdgpu"@ ==> final(self).amdgpu@ == old(self).amdgpu@.push(path)
                && final(self).k10temp == old(self).k10temp && final(self).asus_fans == old(
                self,
            ).asus_fans,
            trim(name@) == "asus"@ ==> final(self).asus_fans == Some(path) && final(self).amdgpu
                == old(self).amdgpu && final(self).k10temp == old(self).k10temp,
            trim(name@) != "k10temp"@ && trim(name@) != "amdgpu"@ && trim(name@) != "asus"@
                ==> *final(self) == *old(self),
    {
        proof {
            reveal_strlit("k10temp");
            reveal_strlit("amdgpu");
            reveal_strlit("asus");
            assert("amdgpu"@.len() != "k10temp"@.len());
            assert("asus"@.len() != "k10temp"@.len());
            assert("asus"@.len() != "amdgpu"@.len());
        }
        let v = chars_of(name);
        assert(v@.subrange(0, v.len() as int) =~= v@);
        let (a, b) = trim_window(&v, 0, v.len());
        let k10 = chars_of("k10temp");
        let amd = chars_of("amdgpu");
        let asus = chars_of("asus");
        if eq_at(&v, a, b, &k10) {
            self.k10temp = Some(path);
        } else if eq_at(&v, a, b, &amd) {
            self.amdgpu.push(path);
        } else if eq_at(&v, a, b, &asus) {
            self.asus_fans = Some(path);
        }
    }
}

/// One round of sensor readings; `None` where a reading failed. Temperatures
/// are whole degrees (the reading with its fraction cut off).
#[derive(Debug, Clone)]
pub struct SensorData {
    pub cpu_temp: Option<u64>,
    pub gpu_temp: Option<u64>,
    pub cpu_fan: Option<u32>,
    pub gpu_fan: Option<u32>,
    pub battery_capacity: Option<u32>,
    pub battery_status: Option<String>,
    pub charge_limit: Option<u32>,
}

/// A number in a sysfs file: the contents trimmed and parsed, or a parse
/// error whose message is `prefix` followed by that of the number parser.
fn read_number(contents: &str, prefix: &str) -> (r: Result<u32, AppError>)
    ensures
        match parse_u32(trim(contents@)) {
            Some(n) => r == Ok::<u32, AppError>(n),
            None => r matches Err(AppError::Parse(m)) && m@ == prefix@ + int_error_text(
                trim(contents@),
            ),
        },
{
    let v = chars_of(contents);
    assert(v@.subrange(0, v.len() as int) =~= v@);
    let (a, b) = trim_window(&v, 0, v.len());
    let t = substring(contents, a, b);
    match parse_u32_std(t.as_str()) {
        Ok(n) => Ok(n),
        Err(e) => {
            let mut m = prefix.to_owned();
            m.append(e.as_str());
            Err(AppError::Parse(m))
        },
    }
}

/// Fan speed in RPM from the contents of a `fanN_input` file.
pub fn read_fan_rpm(contents: &str) -> (r: Result<u32, AppError>)
    ensures
        match parse_u32(trim(contents@)) {
            Some(n) => r == Ok::<u32, AppError>(n),
            None => r matches Err(AppError::Parse(m)) && m@ == "fan RPM parse: "@ + int_error_text(
                trim(contents@),
            ),
        },
{
    read_number(contents, "fan RPM parse: ")
}

/// Battery charge in percent from the contents of `BAT0/capacity`.
pub fn read_battery_capacity(contents: &str) -> (r: Result<u32, AppError>)
    ensures
        match parse_u32(trim(contents@)) {
            Some(n) => r == Ok::<u32, AppError>(n),
            None => r matches Err(AppError::Parse(m)) && m@ == "battery capacity: "@
                + int_error_text(trim(contents@)),
        },
{
    read_number(contents, "battery capacity: ")
}

/// Battery state (`Charging`, `Discharging`, ...) from the contents of `BAT0/status`.
pub fn read_battery_status(contents: &str) -> (r: String)
    ensures
        r@ == trim(contents@),
{
    let v = chars_of(contents);
    assert(v@.subrange(0, v.len() as int) =~= v@);
    let (a, b) = trim_window(&v, 0, v.len());
    substring(contents, a, b)
}

/// Charge limit in percent from the contents of `BAT0/charge_control_end_threshold`.
pub fn read_charge_limit(contents: &str) -> (r: Result<u32, AppError>)
    ensures
        match parse_u32(trim(contents@)) {
            Some(n) => r == Ok::<u32, AppError>(n),
            None => r matches Err(AppError::Parse(m)) && m@ == "charge limit: "@ + int_error_text(
                trim(contents@),
            ),
        },
{
    read_number(contents, "charge limit: ")
}

} // verus!
