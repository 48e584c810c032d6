use pixelflux::process::{
    get_process_rss_bytes, gpu_exposed, probe_wayland_gpu, rss_pages, shm_usage_in, BringUp,
};

#[test]
fn resident_memory_is_the_second_word() {
    assert_eq!(rss_pages("1000 250 10 1 0 50 0\n"), Some(250));
    assert_eq!(get_process_rss_bytes(Some("1000 250 10 1 0 50 0\n")), 250 * 4096);
    assert_eq!(get_process_rss_bytes(Some("1000")), 0);
    assert_eq!(get_process_rss_bytes(Some("1000 x")), 0);
    assert_eq!(get_process_rss_bytes(None), 0);
}

/// Only allocated blocks count: a sparse file has none.
#[test]
fn shared_memory_is_counted_in_blocks() {
    assert_eq!(shm_usage_in(&[]), 0);
    assert_eq!(shm_usage_in(&[0, 8192, 3]), 8195 * 512);
}

#[test]
fn device_nodes_expose_a_gpu() {
    assert!(gpu_exposed(true, &[]));
    assert!(!gpu_exposed(false, &[]));
    assert!(!gpu_exposed(false, &["by-path".to_string()]));
    assert!(gpu_exposed(false, &["by-path".to_string(), "renderD128".to_string()]));
    assert!(gpu_exposed(false, &["card0".to_string()]));
}

/// A node that only reaches a software rasterizer is not accelerated.
#[test]
fn software_rasterizers_are_told() {
    let node = || Some("/dev/dri/renderD128".to_string());
    let p = probe_wayland_gpu(node(), BringUp::Reached("LLVMpipe (LLVM 15)".to_string()));
    assert!(!p.accelerated);
    assert_eq!(p.error, "Software rasterizer only (LLVMpipe (LLVM 15))");
    assert_eq!(p.renderer, "LLVMpipe (LLVM 15)");
    let p = probe_wayland_gpu(node(), BringUp::Reached("AMD Radeon".to_string()));
    assert!(p.accelerated && p.error.is_empty());
    let p = probe_wayland_gpu(node(), BringUp::Failed("no EGL".to_string()));
    assert_eq!((p.accelerated, p.error.as_str(), p.node.as_str()), (false, "no EGL", "/dev/dri/renderD128"));
    let p = probe_wayland_gpu(None, BringUp::Failed(String::new()));
    assert_eq!((p.accelerated, p.error.as_str()), (false, "No render node"));
}
