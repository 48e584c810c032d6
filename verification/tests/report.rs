use pixelflux::encoders::{Codec, EncodedStripe, FrameTiming};
use pixelflux::report::{
    capture, capture_declined, capture_reason, encoder_reason, enter, hardware_encoder, leave,
    renderer, set_renderer, stream, wayland_reports, Renderer, Reports, StreamReport, STILL_ENCODER,
};
use pixelflux::settings::RustCaptureSettings;

/// A decision lands in the report bound to the thread and nowhere without one, and a zero-copy path
/// drops the reasons collected ahead of it.
#[test]
fn decisions_land_in_the_bound_report() {
    let mut reports = Reports::new();
    capture_declined(&mut reports, "NvFBC", "unbound");
    let report = reports.open_report("x11");
    {
        let scope = enter(&mut reports, report);
        capture_declined(&mut reports, "NvFBC", "the codec is JPEG");
        capture_declined(&mut reports, "DRI3", "no DRI3");
        capture(&mut reports, "XShm", false);
        leave(&mut reports, scope);
    }
    capture_declined(&mut reports, "NvFBC", "unbound");
    let info = reports.list[report].info();
    assert_eq!(info.backend, "x11");
    assert_eq!(info.capture, "XShm");
    assert_eq!(info.capture_reason, "NvFBC: the codec is JPEG; DRI3: no DRI3");
    {
        let scope = enter(&mut reports, report);
        capture(&mut reports, "DRI3", true);
        leave(&mut reports, scope);
    }
    assert!(reports.list[report].info().zero_copy);
    assert!(reports.list[report].info().capture_reason.is_empty());
}

/// Scopes nest, so a capture start on a thread already serving another restores it.
#[test]
fn scopes_restore_the_outer_report() {
    let mut reports = Reports::new();
    let outer = reports.open_report("wayland");
    let inner = reports.open_report("wayland");
    let outer_scope = enter(&mut reports, outer);
    {
        let inner_scope = enter(&mut reports, inner);
        encoder_reason(&mut reports, "inner");
        leave(&mut reports, inner_scope);
    }
    encoder_reason(&mut reports, "outer");
    assert_eq!(reports.list[inner].info().encoder_reason, "inner");
    assert_eq!(reports.list[outer].info().encoder_reason, "outer");
    leave(&mut reports, outer_scope);
    encoder_reason(&mut reports, "nobody");
    assert_eq!(reports.list[outer].info().encoder_reason, "outer");
}

#[test]
fn reasons_and_encoders_replace_what_was_told() {
    let mut reports = Reports::new();
    let at = reports.open_report("wayland");
    let scope = enter(&mut reports, at);
    capture_reason(&mut reports, "host compositor");
    hardware_encoder(&mut reports, "GPU", "nvidia", 1);
    leave(&mut reports, scope);
    let info = reports.list[at].info();
    assert_eq!(info.capture_reason, "host compositor");
    assert_eq!((info.gpu.as_str(), info.driver.as_str(), info.encode_node), ("GPU", "nvidia", 1));
}

#[test]
fn streams_tell_their_encoder() {
    let mut reports = Reports::new();
    let at = reports.open_report("x11");
    let scope = enter(&mut reports, at);
    let mut s = RustCaptureSettings::default();
    s.codec = Codec::H264;
    stream(&mut reports, &s, "h264", "x264", 1, Some(("NVENC", true)), true, false);
    let hw = reports.list[at].info();
    assert_eq!((hw.encoder.as_str(), hw.hardware, hw.codec, hw.stripes), ("NVENC", true, "h264", 1));
    assert!(hw.fullcolor && !hw.full_range);
    stream(&mut reports, &s, "h264", "x264", 4, None, false, true);
    let sw = reports.list[at].info();
    assert_eq!((sw.encoder.as_str(), sw.hardware, sw.stripes), ("x264", false, 4));
    s.codec = Codec::Jpeg;
    stream(&mut reports, &s, "jpeg", "x264", 8, None, false, true);
    assert_eq!(reports.list[at].info().encoder, STILL_ENCODER);
    leave(&mut reports, scope);
}

#[test]
fn totals_count_what_was_delivered() {
    let mut r = StreamReport::new("x11");
    let stripe = |len: usize, t: (i64, i64, i64)| EncodedStripe {
        data: vec![0u8; len],
        data_type: 2,
        codec: Codec::H264,
        stripe_y_start: 0,
        stripe_height: 16,
        frame_id: 0,
        timing: FrameTiming { capture_ns: t.0, encode_start_ns: t.1, encode_end_ns: t.2 },
    };
    r.tally(&[]);
    assert_eq!(r.totals().frames, 0);
    r.tally(&[stripe(100, (1000, 2000, 5000)), stripe(50, (1000, 2000, 6000))]);
    let t = r.totals();
    assert_eq!((t.frames, t.bytes), (1, 150));
}

#[test]
fn the_renderer_and_the_displays_are_kept() {
    let mut reports = Reports::new();
    set_renderer(&mut reports, Renderer {
        kind: "gles",
        node: "/dev/dri/renderD128".to_string(),
        gpu: "GPU".to_string(),
        reason: String::new(),
    });
    assert_eq!(renderer(&reports).kind, "gles");
    assert_eq!(renderer(&reports).node, "/dev/dri/renderD128");
    let at = reports.open_report("wayland");
    wayland_reports(&mut reports).insert(3, at);
    assert_eq!(wayland_reports(&mut reports).get(&3), Some(&at));
}
