use vstd::prelude::*;

verus! {

/// Runtime settings of the overlay.
#[derive(Debug, Clone)]
pub struct AppConfig {
    pub enabled: bool,
    /// Layout preset: 0 Basic, 1 Advanced, 2 Bandwidth & Streaming, 3 FPS only.
    pub preset: i32,
    pub refresh_interval_ms: u64,
    pub gpu_backend: String,
    pub gpu_index: u32,
    pub enable_mangohud_pipe: bool,
}

impl Default for AppConfig {
    fn default() -> (r: Self)
        ensures
            r.enabled,
            r.preset == 0,
            r.refresh_interval_ms == 1000,
            r.gpu_backend@ == seq!['a', 'u', 't', 'o'],
            r.gpu_index == 0,
            r.enable_mangohud_pipe,
    {
        let backend = "auto".to_owned();
        proof {
            reveal_strlit("auto");
        }
        AppConfig {
            enabled: true,
            preset: 0,
            refresh_interval_ms: 1000,
            gpu_backend: backend,
            gpu_index: 0,
            enable_mangohud_pipe: true,
        }
    }
}

} // verus!
