use vstd::prelude::*;

use crate::text::{
    chars_of, decimal, decimal_chars, lines, lines_of, lossy_utf8, parse_u32, parse_u32_spec,
    split_chars, split_on, string_from_chars, trim, trim_chars, utf8_lossy,
};

verus! {

/// Reads an NVIDIA GPU's state through the `nvidia-smi` command.
pub struct NvidiaSmiCollector {
    gpu_index: u32,
}

impl View for NvidiaSmiCollector {
    type V = u32;

    /// The index of the GPU queried.
    closed spec fn view(&self) -> u32 {
        self.gpu_index
    }
}

/// The query of `nvidia-smi`: the fields read, in order.
pub open spec fn smi_query_arg() -> Seq<char> {
    "--query-gpu=name,utilization.gpu,utilization.memory,clocks.current.graphics,clocks.current.memory,temperature.gpu,power.draw,fan.speed,memory.used,memory.total"@
}

/// The output format of `nvidia-smi`: CSV without header or units.
pub open spec fn smi_format_arg() -> Seq<char> {
    "--format=csv,noheader,nounits"@
}

/// A `u32` field as the collector reads it: its value, or 0 when it is not
/// a number.
pub open spec fn u32_or_zero(s: Seq<char>) -> u32 {
    match parse_u32_spec(s) {
        Some(v) => v,
        None => 0,
    }
}

/// The trimmed comma-separated fields of the first line of `text`, when there
/// is a line and it has at least ten fields.
pub open spec fn smi_fields_of(text: Seq<char>) -> Option<Seq<Seq<char>>> {
    let ls = lines(text);
    if ls.len() == 0 {
        None
    } else {
        let parts = split_on(trim(ls[0]), ',').map_values(|p: Seq<char>| trim(p));
        if parts.len() < 10 {
            None
        } else {
            Some(parts)
        }
    }
}

/// One reading of `nvidia-smi`: the name and integer fields as values, the
/// decimal fields as the text that `nvidia-smi` printed.
pub struct SmiReading {
    pub name: String,
    pub util: String,
    pub mem_util: String,
    pub clock_mhz: u32,
    pub mem_clock_mhz: u32,
    pub temp: String,
    pub power_w: String,
    pub fan_speed: u32,
    pub mem_used_mb: String,
    pub mem_total_mb: String,
}

/// `r` holds the fields `f` in the order of the query.
pub open spec fn reading_matches(r: SmiReading, f: Seq<Seq<char>>) -> bool {
    &&& r.name@ == f[0]
    &&& r.util@ == f[1]
    &&& r.mem_util@ == f[2]
    &&& r.clock_mhz == u32_or_zero(f[3])
    &&& r.mem_clock_mhz == u32_or_zero(f[4])
    &&& r.temp@ == f[5]
    &&& r.power_w@ == f[6]
    &&& r.fan_speed == u32_or_zero(f[7])
    &&& r.mem_used_mb@ == f[8]
    &&& r.mem_total_mb@ == f[9]
}

/// A `u32` field, or 0 when it is not a number.
fn field_u32(f: &[char]) -> (r: u32)
    ensures
        r == u32_or_zero(f@),
{
    match parse_u32(f) {
        Some(v) => v,
        None => 0,
    }
}

impl NvidiaSmiCollector {
    /// A collector for GPU `gpu_index`.
    pub fn new(gpu_index: u32) -> (r: Self)
        ensures
            r@ == gpu_index,
    {
        NvidiaSmiCollector { gpu_index }
    }

    /// The arguments passed to `nvidia-smi`: the GPU id, the query and the
    /// output format.
    pub fn query_args(&self) -> (r: Vec<String>)
        ensures
            r@.len() == 3,
            r@[0]@ == "--id="@ + decimal(self@ as nat),
            r@[1]@ == smi_query_arg(),
            r@[2]@ == smi_format_arg(),
    {
        let mut id = chars_of("--id=");
        let mut d = decimal_chars(self.gpu_index);
        id.append(&mut d);
        let mut r: Vec<String> = Vec::new();
        r.push(string_from_chars(id.as_slice()));
        r.push("--query-gpu=name,utilization.gpu,utilization.memory,clocks.current.graphics,clocks.current.memory,temperature.gpu,power.draw,fan.speed,memory.used,memory.total".to_owned());
        r.push("--format=csv,noheader,nounits".to_owned());
        r
    }

    /// The reading in the text printed by `nvidia-smi`; `None` when its first
    /// line has fewer than ten fields or there is no line.
    pub fn parse_text(text: &str) -> (r: Option<SmiReading>)
        ensures
            match smi_fields_of(text@) {
                Some(f) => r matches Some(x) && reading_matches(x, f),
                None => r is None,
            },
    {
        let cs = chars_of(text);
        let ls = lines_of(cs.as_slice());
        if ls.len() == 0 {
            return None;
        }
        assert(ls@[0]@ == lines(text@)[0]);
        let line = trim_chars(ls[0].as_slice());
        let raw = split_chars(line.as_slice(), ',');
        let ghost target = split_on(line@, ',').map_values(|p: Seq<char>| trim(p));
        let mut parts: Vec<Vec<char>> = Vec::new();
        for i in 0..raw.len()
            invariant
                crate::text::views(raw@) == split_on(line@, ','),
                target == split_on(line@, ',').map_values(|p: Seq<char>| trim(p)),
                crate::text::views(parts@) == target.take(i as int),
        {
            let ghost before = crate::text::views(parts@);
            let p = trim_chars(raw[i].as_slice());
            assert(raw@[i as int]@ == split_on(line@, ',')[i as int]);
            let ghost pv = p@;
            parts.push(p);
            assert(crate::text::views(parts@) =~= before.push(pv));
            assert(target.take(i + 1) =~= target.take(i as int).push(target[i as int]));
        }
        assert(target.take(target.len() as int) =~= target);
        if parts.len() < 10 {
            return None;
        }
        let ghost f = target;
        assert(forall|k: int| 0 <= k < 10 ==> parts@[k]@ == f[k]);
        let reading = SmiReading {
            name: string_from_chars(parts[0].as_slice()),
            util: string_from_chars(parts[1].as_slice()),
            mem_util: string_from_chars(parts[2].as_slice()),
            clock_mhz: field_u32(parts[3].as_slice()),
            mem_clock_mhz: field_u32(parts[4].as_slice()),
            temp: string_from_chars(parts[5].as_slice()),
            power_w: string_from_chars(parts[6].as_slice()),
            fan_speed: field_u32(parts[7].as_slice()),
            mem_used_mb: string_from_chars(parts[8].as_slice()),
            mem_total_mb: string_from_chars(parts[9].as_slice()),
        };
        Some(reading)
    }

    /// The reading in the raw standard output of `nvidia-smi`, decoded as
    /// `String::from_utf8_lossy` does.
    pub fn parse_output(stdout: &[u8]) -> (r: Option<SmiReading>)
        ensures
            match smi_fields_of(lossy_utf8(stdout@)) {
                Some(f) => r matches Some(x) && reading_matches(x, f),
                None => r is None,
            },
    {
        let text = utf8_lossy(stdout);
        NvidiaSmiCollector::parse_text(text.as_str())
    }
}

} // verus!
