use vstd::prelude::*;

use crate::text::{
    chars_of, decimal, decimal_chars, parse_u32, parse_u32_spec, string_from_chars, trim,
    trim_chars,
};

verus! {

/// `base` joined with the relative or absolute path `name`, as
/// `Path::join` does on Unix: an absolute `name` replaces `base`; otherwise a
/// `/` separates them unless `base` is empty or already ends in one.
pub open spec fn join_path(base: Seq<char>, name: Seq<char>) -> Seq<char> {
    if name.len() > 0 && name[0] == '/' {
        name
    } else if base.len() == 0 || base.last() == '/' {
        base + name
    } else {
        base.push('/') + name
    }
}

/// Joins two paths as `Path::join` does on Unix.
pub fn join_path_str(base: &str, name: &str) -> (r: String)
    ensures
        r@ == join_path(base@, name@),
{
    let b = chars_of(base);
    let mut n = chars_of(name);
    if n.len() > 0 && n[0] == '/' {
        return string_from_chars(n.as_slice());
    }
    let mut v = b;
    if !(v.len() == 0 || v[v.len() - 1] == '/') {
        v.push('/');
    }
    v.append(&mut n);
    string_from_chars(v.as_slice())
}

/// The sysfs directory of DRM card `gpu_index`.
pub open spec fn card_path_of(gpu_index: u32) -> Seq<char> {
    "/sys/class/drm/card"@ + decimal(gpu_index as nat)
}

/// The hardware-monitor directory of DRM card `gpu_index`.
pub open spec fn hwmon_path_of(gpu_index: u32) -> Seq<char> {
    join_path(card_path_of(gpu_index), "device/hwmon/hwmon0"@)
}

/// The sysfs directory of DRM card `gpu_index`.
pub fn card_path_for(gpu_index: u32) -> (r: String)
    ensures
        r@ == card_path_of(gpu_index),
{
    let mut v = chars_of("/sys/class/drm/card");
    let mut d = decimal_chars(gpu_index);
    v.append(&mut d);
    string_from_chars(v.as_slice())
}

/// The hardware-monitor directory of DRM card `gpu_index`.
pub fn hwmon_path_for(gpu_index: u32) -> (r: String)
    ensures
        r@ == hwmon_path_of(gpu_index),
{
    let card = card_path_for(gpu_index);
    join_path_str(card.as_str(), "device/hwmon/hwmon0")
}

/// Reads an AMD GPU's state from sysfs.
pub struct AmdGpuCollector {
    card_path: Option<String>,
    hwmon_path: Option<String>,
}

/// The path held by an optional string.
pub open spec fn opt_view(p: Option<String>) -> Option<Seq<char>> {
    match p {
        Some(s) => Some(s@),
        None => None,
    }
}

impl View for AmdGpuCollector {
    type V = (Option<Seq<char>>, Option<Seq<char>>);

    /// The card directory and the hardware-monitor directory, each known
    /// only when it exists.
    closed spec fn view(&self) -> (Option<Seq<char>>, Option<Seq<char>>) {
        (opt_view(self.card_path), opt_view(self.hwmon_path))
    }
}

/// A file under an optional directory.
fn file_in(dir: &Option<String>, name: &str) -> (r: Option<String>)
    ensures
        match opt_view(*dir) {
            Some(d) => r matches Some(f) && f@ == join_path(d, name@),
            None => r is None,
        },
{
    match dir {
        Some(d) => Some(join_path_str(d.as_str(), name)),
        None => None,
    }
}

impl AmdGpuCollector {
    /// A collector for card `gpu_index`, given whether its sysfs directory
    /// (`card_path_for`) and its hardware-monitor directory (`hwmon_path_for`)
    /// exist.
    pub fn new(gpu_index: u32, card_exists: bool, hwmon_exists: bool) -> (r: Self)
        ensures
            r@.0 == (if card_exists {
                Some(card_path_of(gpu_index))
            } else {
                None
            }),
            r@.1 == (if hwmon_exists {
                Some(hwmon_path_of(gpu_index))
            } else {
                None
            }),
    {
        let card = card_path_for(gpu_index);
        let hwmon = hwmon_path_for(gpu_index);
        AmdGpuCollector {
            card_path: if card_exists {
                Some(card)
            } else {
                None
            },
            hwmon_path: if hwmon_exists {
                Some(hwmon)
            } else {
                None
            },
        }
    }

    /// Whether the card exists.
    pub fn is_available(&self) -> (r: bool)
        ensures
            r == self@.0 is Some,
    {
        self.card_path.is_some()
    }

    /// The path of a file in the card's `device` directory; `None` when the
    /// card does not exist.
    pub fn device_file(&self, name: &str) -> (r: Option<String>)
        ensures
            match self@.0 {
                Some(c) => r matches Some(f) && f@ == join_path(join_path(c, "device"@), name@),
                None => r is None,
            },
    {
        match &self.card_path {
            Some(c) => {
                let dev = join_path_str(c.as_str(), "device");
                Some(join_path_str(dev.as_str(), name))
            },
            None => None,
        }
    }

    /// The path of a file in the hardware-monitor directory; `None` when that
    /// directory does not exist.
    pub fn hwmon_file(&self, name: &str) -> (r: Option<String>)
        ensures
            match self@.1 {
                Some(h) => r matches Some(f) && f@ == join_path(h, name@),
                None => r is None,
            },
    {
        file_in(&self.hwmon_path, name)
    }
}

/// The number in a sysfs attribute file: its text, trimmed, read as a `u32`.
pub fn parse_sysfs_u32(text: &str) -> (r: Option<u32>)
    ensures
        r == parse_u32_spec(trim(text@)),
{
    let cs = chars_of(text);
    let t = trim_chars(cs.as_slice());
    parse_u32(t.as_slice())
}

/// A clock frequency in Hz, in whole MHz.
pub fn hz_to_mhz(hz: u32) -> (r: u32)
    ensures
        r == hz / 1_000_000,
{
    hz / 1_000_000
}

} // verus!
