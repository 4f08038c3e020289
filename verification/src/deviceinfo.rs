//! Gather useful static fields from the sunspec data (module 1).
use vstd::prelude::*;
use crate::registers::{parse_string, register_string};
use crate::sunspec::Field;
use crate::text::str_equal;

verus! {

/// Identification of a device, as its common model (module 1) gives it.
#[derive(Debug)]
pub struct DeviceInfo {
    pub manufacturer: String,
    pub model: String,
    pub options: String,
    pub sn: String,
}

impl Default for DeviceInfo {
    fn default() -> (r: DeviceInfo)
        ensures
            r.manufacturer@ == Seq::<char>::empty(),
            r.model@ == Seq::<char>::empty(),
            r.options@ == Seq::<char>::empty(),
            r.sn@ == Seq::<char>::empty(),
    {
        DeviceInfo {
            manufacturer: String::new(),
            model: String::new(),
            options: String::new(),
            sn: String::new(),
        }
    }
}

impl DeviceInfo {
    /// A copy of the identification.
    pub fn copied(&self) -> (r: DeviceInfo)
        ensures
            r == *self,
    {
        DeviceInfo {
            manufacturer: self.manufacturer.clone(),
            model: self.model.clone(),
            options: self.options.clone(),
            sn: self.sn.clone(),
        }
    }
}


/// The fields of a common model block in their usual layout: manufacturer, model,
/// options, version, serial number and a one-register device address.
pub open spec fn mod1_layout(fs: Seq<Field>) -> bool {
    &&& fs.len() == 6
    &&& fs[0].point.name@ == "Mn"@
    &&& fs[1].point.name@ == "Md"@
    &&& fs[2].point.name@ == "Opt"@
    &&& fs[3].point.name@ == "Vr"@
    &&& fs[4].point.name@ == "SN"@
    &&& fs[5].point.name@ == "DA"@
    &&& fs[5].value@.len() == 1
}

/// Manufacturer, model, options and serial number of a common model block, when its
/// fields have the usual layout and these four hold valid register strings.
pub open spec fn mod1_strings(fs: Seq<Field>) -> Option<(Seq<char>, Seq<char>, Seq<char>, Seq<char>)> {
    if !mod1_layout(fs) {
        None
    } else {
        match (
            register_string(fs[0].value@),
            register_string(fs[1].value@),
            register_string(fs[2].value@),
            register_string(fs[4].value@),
        ) {
            (Some(mn), Some(md), Some(opt), Some(sn)) => Some((mn, md, opt, sn)),
            _ => None,
        }
    }
}

/// The identification as four texts.
pub open spec fn info_strings(d: DeviceInfo) -> (Seq<char>, Seq<char>, Seq<char>, Seq<char>) {
    (d.manufacturer@, d.model@, d.options@, d.sn@)
}

/// The device identification that the fields of a common model (module 1) block give.
pub fn parse_mod1(fields: &[Field]) -> (r: Option<DeviceInfo>)
    ensures
        match r {
            Some(d) => mod1_strings(fields@) == Some(info_strings(d)),
            None => mod1_strings(fields@) is None,
        },
{
    if fields.len() != 6 {
        return None;
    }
    let expected_fields = str_equal(fields[0].point.name.as_str(), "Mn")
        && str_equal(fields[1].point.name.as_str(), "Md")
        && str_equal(fields[2].point.name.as_str(), "Opt")
        && str_equal(fields[3].point.name.as_str(), "Vr")
        && str_equal(fields[4].point.name.as_str(), "SN")
        && str_equal(fields[5].point.name.as_str(), "DA")
        && fields[5].value.len() == 1;
    if !expected_fields {
        return None;
    }
    let manufacturer = match parse_string(fields[0].value.as_slice()) {
        Some(t) => t,
        None => {
            return None;
        },
    };
    let model = match parse_string(fields[1].value.as_slice()) {
        Some(t) => t,
        None => {
            return None;
        },
    };
    let options = match parse_string(fields[2].value.as_slice()) {
        Some(t) => t,
        None => {
            return None;
        },
    };
    let sn = match parse_string(fields[4].value.as_slice()) {
        Some(t) => t,
        None => {
            return None;
        },
    };
    Some(DeviceInfo { manufacturer, model, options, sn })
}

} // verus!
