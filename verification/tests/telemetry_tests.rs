use std::collections::VecDeque;
use std::path::Path;

use nv_overlay_slint::config::AppConfig;
use nv_overlay_slint::telemetry::cpu_ram::{cpu_label_from_lower, is_cpu_temp_label};
use nv_overlay_slint::telemetry::engine::{poll_interval_ms, sleep_after_nanos};
use nv_overlay_slint::telemetry::fps_mangohud::{frame_fields, MangoHudFpsReader};
use nv_overlay_slint::telemetry::gpu_amd::{
    card_path_for, hwmon_path_for, hz_to_mhz, join_path_str, parse_sysfs_u32, AmdGpuCollector,
};
use nv_overlay_slint::telemetry::gpu_smi::NvidiaSmiCollector;
use nv_overlay_slint::telemetry::metrics::MetricHistory;
use nv_overlay_slint::telemetry::simulated::SimulatedCollector;

#[test]
fn default_config_values() {
    let c = AppConfig::default();
    assert!(c.enabled);
    assert_eq!(c.preset, 0);
    assert_eq!(c.refresh_interval_ms, 1000);
    assert_eq!(c.gpu_backend, "auto");
    assert_eq!(c.gpu_index, 0);
    assert!(c.enable_mangohud_pipe);
}

#[test]
fn mangohud_paths_only_when_enabled() {
    assert_eq!(
        MangoHudFpsReader::new(true).candidate_paths(),
        vec!["/tmp/mangohud", "/tmp/mangoapp", "/tmp/mangohud_pipe"]
    );
    assert!(MangoHudFpsReader::new(false).candidate_paths().is_empty());
}

#[test]
fn mangohud_fields_from_last_line() {
    assert_eq!(
        frame_fields("144.0,6.9\n143.5,7.0\n"),
        Some(("143.5".to_string(), "7.0".to_string()))
    );
    assert_eq!(frame_fields("  60, 16.6 ,extra  \r\n"), Some(("60".to_string(), " 16.6 ".to_string())));
    assert_eq!(frame_fields(",\n"), Some((String::new(), String::new())));
    assert_eq!(frame_fields("120.0\n"), None);
    assert_eq!(frame_fields("1,2\n\n"), None);
    assert_eq!(frame_fields(""), None);
}

#[test]
fn cpu_sensor_labels() {
    assert!(is_cpu_temp_label("k10temp Tctl"));
    assert!(is_cpu_temp_label("CPU Package"));
    assert!(is_cpu_temp_label("coretemp Core 0"));
    assert!(is_cpu_temp_label("Package id 0"));
    assert!(!is_cpu_temp_label("nvme Composite"));
    assert!(!is_cpu_temp_label("amdgpu edge"));
}

#[test]
fn cpu_sensor_labels_lowered() {
    assert!(cpu_label_from_lower("cpu package"));
    assert!(cpu_label_from_lower("k10temp tctl"));
    assert!(!cpu_label_from_lower("CPU"));
    assert!(!cpu_label_from_lower("edge"));
}

#[test]
fn amd_sysfs_paths() {
    assert_eq!(card_path_for(0), "/sys/class/drm/card0");
    assert_eq!(card_path_for(12), "/sys/class/drm/card12");
    assert_eq!(hwmon_path_for(1), "/sys/class/drm/card1/device/hwmon/hwmon0");
    let c = AmdGpuCollector::new(0, true, true);
    assert!(c.is_available());
    assert_eq!(c.device_file("gpu_busy_percent").as_deref(), Some("/sys/class/drm/card0/device/gpu_busy_percent"));
    assert_eq!(c.hwmon_file("temp1_input").as_deref(), Some("/sys/class/drm/card0/device/hwmon/hwmon0/temp1_input"));
    let missing = AmdGpuCollector::new(3, false, false);
    assert!(!missing.is_available());
    assert_eq!(missing.device_file("x"), None);
    assert_eq!(missing.hwmon_file("x"), None);
    let no_hwmon = AmdGpuCollector::new(0, true, false);
    assert!(no_hwmon.device_file("mem_info_vram_used").is_some());
    assert_eq!(no_hwmon.hwmon_file("pwm1"), None);
}

#[test]
fn path_join_matches_std() {
    for (b, n) in [("/a", "b"), ("/a/", "b"), ("", "b"), ("/a", "/c"), ("/a", ""), ("x", "y/z")] {
        assert_eq!(join_path_str(b, n), Path::new(b).join(n).to_str().unwrap());
    }
}

#[test]
fn sysfs_numbers() {
    assert_eq!(parse_sysfs_u32("1800000000\n"), Some(1800000000));
    assert_eq!(parse_sysfs_u32(" 42 "), Some(42));
    assert_eq!(parse_sysfs_u32("+7"), Some(7));
    assert_eq!(parse_sysfs_u32("4294967296"), None);
    assert_eq!(parse_sysfs_u32("-1"), None);
    assert_eq!(parse_sysfs_u32(""), None);
    assert_eq!(hz_to_mhz(1_800_000_000), 1800);
    assert_eq!(hz_to_mhz(999_999), 0);
}

#[test]
fn smi_arguments() {
    let c = NvidiaSmiCollector::new(1);
    let args = c.query_args();
    assert_eq!(args[0], "--id=1");
    assert_eq!(args[1], "--query-gpu=name,utilization.gpu,utilization.memory,clocks.current.graphics,clocks.current.memory,temperature.gpu,power.draw,fan.speed,memory.used,memory.total");
    assert_eq!(args[2], "--format=csv,noheader,nounits");
}

#[test]
fn smi_output_parsed() {
    let out = "NVIDIA GeForce RTX 4080 SUPER, 97, 72, 2565, 11200, 66, 275.31, 56, 10035, 16376\n";
    let r = NvidiaSmiCollector::parse_output(out.as_bytes()).unwrap();
    assert_eq!(r.name, "NVIDIA GeForce RTX 4080 SUPER");
    assert_eq!(r.util, "97");
    assert_eq!(r.mem_util, "72");
    assert_eq!(r.clock_mhz, 2565);
    assert_eq!(r.mem_clock_mhz, 11200);
    assert_eq!(r.temp, "66");
    assert_eq!(r.power_w, "275.31");
    assert_eq!(r.fan_speed, 56);
    assert_eq!(r.mem_used_mb, "10035");
    assert_eq!(r.mem_total_mb, "16376");
}

#[test]
fn smi_output_rejected_or_defaulted() {
    assert!(NvidiaSmiCollector::parse_text("").is_none());
    assert!(NvidiaSmiCollector::parse_text("a,b,c\n").is_none());
    let r = NvidiaSmiCollector::parse_text("gpu, 1, 2, [N/A], 5, 6, 7, [N/A], 9, 10, 11\nsecond").unwrap();
    assert_eq!(r.clock_mhz, 0);
    assert_eq!(r.mem_clock_mhz, 5);
    assert_eq!(r.fan_speed, 0);
    assert_eq!(r.mem_total_mb, "10");
}

#[test]
fn history_keeps_latest_samples() {
    let mut h: MetricHistory<f32> = MetricHistory::new(3);
    assert!(h.values.is_empty());
    for v in [1.0, 2.0, 3.0, 4.0, 5.0] {
        h.push(v);
    }
    assert_eq!(h.values, VecDeque::from(vec![3.0, 4.0, 5.0]));
    assert_eq!(h.max_samples, 3);
}

#[test]
fn history_with_zero_limit_keeps_one() {
    let mut h: MetricHistory<u32> = MetricHistory::new(0);
    h.push(1);
    h.push(2);
    assert_eq!(h.values, VecDeque::from(vec![2]));
}

#[test]
fn sampling_interval() {
    assert_eq!(poll_interval_ms(1000), 1000);
    assert_eq!(poll_interval_ms(100), 500);
    assert_eq!(poll_interval_ms(500), 500);
    assert_eq!(sleep_after_nanos(200_000_000, 1000), 800_000_000);
    assert_eq!(sleep_after_nanos(1_500_000_000, 1000), 0);
    assert_eq!(sleep_after_nanos(1_000_000_000, 1000), 0);
}

#[test]
fn simulated_source_starts_now() {
    let before = std::time::Instant::now();
    let s = SimulatedCollector::new();
    assert!(s.start_time() >= before);
    assert!(s.start_time() <= std::time::Instant::now());
}
