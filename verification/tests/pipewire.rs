use pixelflux::pipewire::{
    cursor_meta_size, find_prop, object, object_props, pod_choice_frac, pod_choice_id,
    pod_choice_int, pod_choice_long, pod_choice_rect, pod_frac, pod_id, pod_int, pod_rect, prop,
    prop_flags, SPA_CHOICE_ENUM, SPA_CHOICE_RANGE, SPA_FORMAT_MEDIA_SUBTYPE, SPA_FORMAT_MEDIA_TYPE,
    SPA_FORMAT_VIDEO_FORMAT, SPA_FORMAT_VIDEO_FRAMERATE, SPA_FORMAT_VIDEO_MAX_FRAMERATE,
    SPA_FORMAT_VIDEO_MODIFIER, SPA_FORMAT_VIDEO_SIZE, SPA_MEDIA_TYPE_VIDEO, SPA_PARAM_ENUM_FORMAT,
    SPA_POD_PROP_FLAG_DONT_FIXATE, SPA_POD_PROP_FLAG_MANDATORY, SPA_TYPE_OBJECT_FORMAT,
    SPA_VIDEO_FORMAT_BGRA, SPA_VIDEO_FORMAT_BGRX,
};

fn put(p: &mut Vec<u8>, key: u32, write: impl Fn(&mut Vec<u8>)) {
    let mut value = Vec::new();
    write(&mut value);
    prop(p, key, &value);
}

/// Every value cell the builders emit reads back through the reader, plain or as a choice whose
/// default is the first value, with property flags preserved.
#[test]
fn built_pods_read_back() {
    let mut p = Vec::new();
    put(&mut p, SPA_FORMAT_MEDIA_TYPE, |v| pod_id(v, SPA_MEDIA_TYPE_VIDEO));
    put(&mut p, SPA_FORMAT_VIDEO_FORMAT, |v| pod_choice_id(v, SPA_CHOICE_ENUM, &[SPA_VIDEO_FORMAT_BGRX, SPA_VIDEO_FORMAT_BGRX, SPA_VIDEO_FORMAT_BGRA]));
    let mut modifiers = Vec::new();
    pod_choice_long(&mut modifiers, SPA_CHOICE_ENUM, &[0x0300_0000_0000_0001, 0x0300_0000_0000_0001, 0]);
    prop_flags(&mut p, SPA_FORMAT_VIDEO_MODIFIER, SPA_POD_PROP_FLAG_MANDATORY | SPA_POD_PROP_FLAG_DONT_FIXATE, &modifiers);
    put(&mut p, SPA_FORMAT_VIDEO_SIZE, |v| pod_choice_rect(v, SPA_CHOICE_RANGE, &[(1280, 720), (1, 1), (16384, 16384)]));
    put(&mut p, SPA_FORMAT_VIDEO_FRAMERATE, |v| pod_frac(v, 0, 1));
    put(&mut p, SPA_FORMAT_VIDEO_MAX_FRAMERATE, |v| pod_choice_frac(v, SPA_CHOICE_RANGE, &[(60, 1), (1, 1), (60, 1)]));
    put(&mut p, SPA_FORMAT_VIDEO_MAX_FRAMERATE + 1, |v| pod_int(v, 4));
    let pod = object(SPA_TYPE_OBJECT_FORMAT, SPA_PARAM_ENUM_FORMAT, &p);
    assert_eq!(pod.len() % 8, 0);
    let (ty, id, props) = object_props(&pod).unwrap();
    assert_eq!((ty, id), (SPA_TYPE_OBJECT_FORMAT, SPA_PARAM_ENUM_FORMAT));
    assert_eq!(find_prop(&props, SPA_FORMAT_MEDIA_TYPE).unwrap().as_u32(), Some(SPA_MEDIA_TYPE_VIDEO));
    assert_eq!(find_prop(&props, SPA_FORMAT_VIDEO_FORMAT).unwrap().as_u32(), Some(SPA_VIDEO_FORMAT_BGRX));
    let modifier = find_prop(&props, SPA_FORMAT_VIDEO_MODIFIER).unwrap();
    assert_eq!(modifier.flags, SPA_POD_PROP_FLAG_MANDATORY | SPA_POD_PROP_FLAG_DONT_FIXATE);
    assert_eq!(modifier.as_i64(), Some(0x0300_0000_0000_0001));
    assert_eq!(find_prop(&props, SPA_FORMAT_VIDEO_SIZE).unwrap().as_pair(), Some((1280, 720)));
    assert_eq!(find_prop(&props, SPA_FORMAT_VIDEO_FRAMERATE).unwrap().as_pair(), Some((0, 1)));
    assert_eq!(find_prop(&props, SPA_FORMAT_VIDEO_MAX_FRAMERATE).unwrap().as_pair(), Some((60, 1)));
    assert_eq!(find_prop(&props, SPA_FORMAT_VIDEO_MAX_FRAMERATE + 1).unwrap().as_u32(), Some(4));
    assert!(find_prop(&props, SPA_FORMAT_MEDIA_SUBTYPE).is_none());
    // The pod's own header covers it whole.
    let size = u32::from_le_bytes(pod[..4].try_into().unwrap()) as usize;
    assert_eq!(size + 8, pod.len());
}

#[test]
fn cursor_metas_hold_a_pixel_in_four_bytes() {
    assert_eq!(cursor_meta_size(64, 64), 28 + 20 + 64 * 64 * 4);
    assert_eq!(cursor_meta_size(0, 0), 48);
}

#[test]
fn other_cells_read_back_too() {
    let mut p = Vec::new();
    put(&mut p, 1, |v| pod_rect(v, 3, 4));
    put(&mut p, 2, |v| pod_choice_int(v, SPA_CHOICE_RANGE, &[-5, 1, 9]));
    let pod = object(1, 2, &p);
    let (_, _, props) = object_props(&pod).unwrap();
    assert_eq!(find_prop(&props, 1).unwrap().as_pair(), Some((3, 4)));
    assert_eq!(find_prop(&props, 1).unwrap().as_u32(), None);
    assert_eq!(find_prop(&props, 2).unwrap().as_u32(), Some(-5i32 as u32));
    assert_eq!(find_prop(&props, 2).unwrap().as_pair(), None);
}

#[test]
fn pods_that_are_no_object_or_cut_short_are_none() {
    let mut value = Vec::new();
    pod_int(&mut value, 4);
    assert!(object_props(&value).is_none());
    assert!(object_props(&[]).is_none());
    let pod = object(1, 2, &[]);
    assert!(object_props(&pod[..pod.len() - 1]).is_none());
    assert!(object_props(&pod).is_some());
}

/// A cell pads whatever it is appended to: behind seven bytes one more follows the cell's own.
#[test]
fn cells_pad_what_they_are_appended_to() {
    let mut v = vec![9u8; 7];
    pod_id(&mut v, 5);
    let mut alone = Vec::new();
    pod_id(&mut alone, 5);
    assert_eq!(alone.len(), 16);
    assert_eq!(v.len(), 24);
    assert_eq!(&v[..7], &[9u8; 7]);
    assert_eq!(&v[7..19], &alone[..12]);
    assert_eq!(&v[19..], &[0u8; 5]);
}
