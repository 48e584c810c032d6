use pixelflux::layout::{
    find_output_overlap, output_serial, rects_overlap, to_logical, window_to_adopt, Flavor, Refusal,
};
use pixelflux::lifecycle::{host_layout_resolution, join_caveats, make_even};
use pixelflux::session::CaptureBook;
use pixelflux::settings::RustCaptureSettings;
use pixelflux::wayland::{Compositor, Mode, OutputNode, PendingHostLayout, WlCapture, Window};

#[test]
fn verdict_resolves_to_a_follow_size_only_when_the_host_kept_another_mode() {
    let want = (1920, 1080);
    // Applied: nothing changes, whatever the (possibly not yet announced) mode reads.
    assert_eq!(host_layout_resolution(true, want, Some((1280, 720))), None);
    assert_eq!(host_layout_resolution(true, want, None), None);
    // Declined but already at the requested size: converged.
    assert_eq!(host_layout_resolution(false, want, Some(want)), None);
    // Declined and running something else: the capture follows the host.
    assert_eq!(host_layout_resolution(false, want, Some((2560, 1440))), Some((2560, 1440)));
    // Declined with no mode known: nothing to follow, the request stands.
    assert_eq!(host_layout_resolution(false, want, None), None);
}

#[test]
fn disjoint_rects_do_not_overlap() {
    assert!(!rects_overlap((0, 0, 100, 100), (200, 0, 100, 100)));
    assert!(!rects_overlap((0, 0, 100, 100), (0, 200, 100, 100)));
}

#[test]
fn touching_edges_do_not_overlap() {
    // Right edge of a meets left edge of b, and bottom meets top.
    assert!(!rects_overlap((0, 0, 100, 100), (100, 0, 100, 100)));
    assert!(!rects_overlap((0, 0, 100, 100), (0, 100, 100, 100)));
    // Corner touch only.
    assert!(!rects_overlap((0, 0, 100, 100), (100, 100, 50, 50)));
}

#[test]
fn one_pixel_intrusion_overlaps() {
    assert!(rects_overlap((0, 0, 100, 100), (99, 0, 100, 100)));
    assert!(rects_overlap((0, 0, 100, 100), (0, 99, 100, 100)));
}

#[test]
fn containment_and_identity_overlap() {
    assert!(rects_overlap((0, 0, 100, 100), (25, 25, 10, 10)));
    assert!(rects_overlap((25, 25, 10, 10), (0, 0, 100, 100)));
    assert!(rects_overlap((5, 5, 50, 50), (5, 5, 50, 50)));
}

#[test]
fn empty_or_negative_rects_never_overlap() {
    assert!(!rects_overlap((10, 10, 0, 50), (0, 0, 100, 100)));
    assert!(!rects_overlap((10, 10, 50, 0), (0, 0, 100, 100)));
    assert!(!rects_overlap((10, 10, -5, 5), (0, 0, 100, 100)));
    assert!(!rects_overlap((0, 0, 100, 100), (10, 10, 0, 0)));
}

#[test]
fn negative_origins_overlap_correctly() {
    assert!(rects_overlap((-50, -50, 100, 100), (0, 0, 100, 100)));
    assert!(!rects_overlap((-100, -100, 100, 100), (0, 0, 100, 100)));
}

#[test]
fn extreme_coordinates_do_not_wrap() {
    assert!(!rects_overlap((i32::MAX - 10, 0, 10, 10), (i32::MIN, 0, 10, 10)));
    assert!(rects_overlap((i32::MAX - 10, 0, 10, 10), (i32::MAX - 5, 0, 10, 10)));
}

fn node(id: u32, pos: (i32, i32), w: i32, h: i32, scale_micro: u32) -> OutputNode {
    OutputNode {
        id,
        name: String::new(),
        pos,
        mode: Some(Mode { w, h, refresh: 60_000 }),
        scale_micro,
        capture: None,
        frame_buffer: Vec::new(),
        frame_seq: 0,
        target_seeded: false,
        content_hold_until: None,
    }
}

fn compositor(nodes: Vec<OutputNode>) -> Compositor {
    Compositor {
        nodes,
        windows: Vec::new(),
        pending_windows: Vec::new(),
        host_layout_pending: Vec::new(),
        book: CaptureBook::new(),
        settings: RustCaptureSettings::default(),
        use_gpu: false,
        render_node_path: String::new(),
        auto_gpu_selected: false,
        host_outputs: None,
        render_cursor_on_framebuffer: false,
    }
}

#[test]
fn lengths_shrink_by_the_scale() {
    assert_eq!(to_logical(1920, 1_000_000), 1920);
    assert_eq!(to_logical(1920, 2_000_000), 960);
    assert_eq!(to_logical(3840, 1_333_333), 2880);
    assert_eq!(to_logical(1001, 2_000_000), 501);
}

#[test]
fn overlaps_are_found_in_both_flavors() {
    let nodes = vec![node(0, (0, 0), 1000, 1000, 2_000_000)];
    let at = |x: i32| find_output_overlap(&nodes, None, (x, 0, 100, 100), (x, 0, 100, 100));
    assert!(matches!(at(499), Some((0, Flavor::Logical, _))));
    assert!(matches!(at(500), Some((0, Flavor::Physical, _))));
    assert!(at(1000).is_none());
    assert!(find_output_overlap(&nodes, Some(0), (0, 0, 10, 10), (0, 0, 10, 10)).is_none());
}

/// An output is created where it overlaps no other, and every refusal is told apart.
#[test]
fn outputs_are_created_apart() {
    let mut c = compositor(vec![node(0, (0, 0), 1920, 1080, 1_000_000)]);
    assert!(matches!(c.create_output_on(0, 100, 100, 5000, 0, 1_000_000, true), Err(Refusal::Exists)));
    assert!(matches!(c.create_output_on(1, 0, 100, 5000, 0, 1_000_000, true), Err(Refusal::Geometry)));
    assert!(matches!(c.create_output_on(1, 100, 100, 1919, 0, 1_000_000, true), Err(Refusal::Overlap(0, _, _))));
    assert!(matches!(c.create_output_on(1, 100, 100, 1920, 0, 1_000_000, false), Err(Refusal::Backing)));
    assert!(c.create_output_on(1, 800, 600, 1920, 0, 1_000_000, true).is_ok());
    assert_eq!(c.nodes.len(), 2);
    assert_eq!((c.nodes[1].id, c.nodes[1].pos), (1, (1920, 0)));
    c.host_outputs = Some(2);
    assert!(matches!(c.create_output_on(2, 800, 600, 9000, 0, 1_000_000, true), Err(Refusal::Capacity(2))));
}

#[test]
fn outputs_move_only_where_there_is_room() {
    let mut c = compositor(vec![node(0, (0, 0), 100, 100, 1_000_000), node(1, (100, 0), 100, 100, 1_000_000)]);
    assert!(!c.reposition_output_on(1, 50, 0));
    assert_eq!(c.nodes[1].pos, (100, 0));
    assert!(c.reposition_output_on(1, 0, 100));
    assert_eq!(c.nodes[1].pos, (0, 100));
    assert!(!c.reposition_output_on(7, 500, 500));
}

#[test]
fn serials_count_from_one() {
    assert_eq!(output_serial(0), "001");
    assert_eq!(output_serial(41), "042");
}

/// The newest window that shares an output is moved to a new one.
#[test]
fn crowded_outputs_give_a_window_up() {
    let window = |id, output, parked| Window { id, output, parked, x: 0, y: 0 };
    assert_eq!(window_to_adopt(&vec![]), None);
    assert_eq!(window_to_adopt(&vec![window(1, 0, false)]), None);
}

#[test]
fn destroyed_outputs_leave_their_windows_to_the_primary() {
    let mut c = compositor(vec![node(0, (0, 0), 100, 100, 1_000_000), node(1, (100, 0), 100, 100, 1_000_000)]);
    c.windows.push(Window { id: 9, output: 1, parked: false, x: 100, y: 0 });
    assert!(c.destroy_output_on(0, &[], (0, 0)).is_none());
    assert!(c.destroy_output_on(5, &[], (0, 0)).is_none());
    assert!(c.destroy_output_on(1, &[false], (0, 0)).is_some());
    assert_eq!(c.nodes.len(), 1);
    assert_eq!(c.windows[0].output, 0);
}

fn captured(id: u32) -> OutputNode {
    let mut n = node(id, (0, 0), 1280, 720, 1_000_000);
    n.capture = Some(WlCapture::new(RustCaptureSettings { width: 1280, height: 720, ..Default::default() }, None, None));
    n
}

/// Stopping a display answers whoever waits for its geometry.
#[test]
fn stopping_answers_the_waiters() {
    let mut c = compositor(vec![captured(0)]);
    c.book.alive.insert(0);
    c.host_layout_pending.push(PendingHostLayout { display_id: 0, epoch: 1, want: (1280, 720), waiters: vec![77] });
    let (cap, answer) = c.stop_capture_on_display(0);
    assert!(cap.is_some());
    assert_eq!(answer.waiters, vec![77]);
    assert_eq!(answer.geometry, c.realized_geometry(0));
    assert!(c.host_layout_pending.is_empty());
    assert!(!c.book.alive.contains(&0));
    assert!(c.stop_capture_on_display(0).0.is_none());
}

/// A host that kept another mode is followed.
#[test]
fn kept_modes_are_followed() {
    let mut c = compositor(vec![captured(0)]);
    let pend = |c: &mut Compositor| c.host_layout_pending.push(PendingHostLayout {
        display_id: 0, epoch: 1, want: (1280, 720), waiters: vec![1],
    });
    pend(&mut c);
    let (waiters, restart) = c.settle_host_layout(0, true, None).unwrap();
    assert_eq!(waiters, vec![1]);
    assert!(restart.is_none());
    pend(&mut c);
    let (_, restart) = c.settle_host_layout(0, false, Some((1921, 1081))).unwrap();
    let r = restart.unwrap();
    assert_eq!((r.settings.width, r.settings.height), (1921, 1081));
    assert!(c.settle_host_layout(0, false, None).is_none());
    assert_eq!((make_even(1921), make_even(1080)), (1920, 1080));
}

/// With the host gone, every capture of it ends with the same reason.
#[test]
fn lost_hosts_end_their_captures() {
    let mut c = compositor(vec![captured(0)]);
    c.host_outputs = Some(1);
    let (none, _) = c.reap_dead_host(true);
    assert!(none.is_empty());
    let (caps, _) = c.reap_dead_host(false);
    assert_eq!(caps.len(), 1);
    assert!(c.host_outputs.is_none());
    assert_eq!(c.book.errors.get(&0).unwrap(), "host compositor connection lost; capture stopped");
    assert_eq!(join_caveats("a".to_string(), Some("b".to_string())), "a; b");
    assert_eq!(join_caveats("a".to_string(), None), "a");
}
