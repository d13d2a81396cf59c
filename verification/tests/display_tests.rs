use fnrow::display::{
    build_commit_request, find_prop_id, is_touch_strip, resolve_prop_ids, select_resources,
    ConnectorInfo, ModeInfo, PropValue, SetupError,
};

fn mode(width: u16, height: u16) -> ModeInfo {
    ModeInfo { width, height }
}

#[test]
fn strip_heuristic() {
    // A 64 x 2008 buffer is 31.4 times as long as thick: a touch strip.
    assert!(is_touch_strip(64, 2008));
    // An ordinary 1920 x 1080 panel is not.
    assert!(!is_touch_strip(1920, 1080));
    assert!(!is_touch_strip(1080, 1920));
    // The threshold is exactly thirty times the thickness.
    assert!(is_touch_strip(64, 1920));
    assert!(!is_touch_strip(64, 1919));
}

#[test]
fn selects_first_connected_connector() {
    let connectors = vec![
        ConnectorInfo { connected: false, modes: vec![mode(1920, 1080)] },
        ConnectorInfo { connected: true, modes: vec![mode(64, 2008), mode(1920, 1080)] },
        ConnectorInfo { connected: true, modes: vec![mode(1920, 1080)] },
    ];
    let plan = select_resources(&connectors, 1, 1).unwrap();
    assert_eq!(plan.connector, 1);
    assert_eq!(plan.mode, mode(64, 2008));
}

#[test]
fn discovery_failures_are_exact() {
    let strip = ConnectorInfo { connected: true, modes: vec![mode(64, 2008)] };
    let none_connected = vec![ConnectorInfo { connected: false, modes: vec![mode(64, 2008)] }];
    assert_eq!(
        select_resources(&none_connected, 1, 1).unwrap_err(),
        SetupError::NoConnectedOutput
    );
    let no_modes = vec![ConnectorInfo { connected: true, modes: vec![] }];
    assert_eq!(select_resources(&no_modes, 1, 1).unwrap_err(), SetupError::NoModeAvailable);
    let panel = vec![ConnectorInfo { connected: true, modes: vec![mode(1920, 1080)] }];
    assert_eq!(select_resources(&panel, 1, 1).unwrap_err(), SetupError::NotATouchStrip);
    let strip_no_crtc = vec![ConnectorInfo { connected: true, modes: strip.modes.clone() }];
    assert_eq!(select_resources(&strip_no_crtc, 0, 1).unwrap_err(), SetupError::NoUsablePlane);
    let strip_no_plane = vec![strip];
    assert_eq!(select_resources(&strip_no_plane, 1, 0).unwrap_err(), SetupError::NoUsablePlane);
}

#[test]
fn property_lookup_by_name() {
    let props = vec![
        (7u32, String::from("ACTIVE")),
        (9u32, String::from("CRTC_ID")),
        (11u32, String::from("CRTC_ID")),
    ];
    assert_eq!(find_prop_id(&props, &String::from("CRTC_ID")), Ok(9));
    assert_eq!(find_prop_id(&props, &String::from("ACTIVE")), Ok(7));
    assert_eq!(
        find_prop_id(&props, &String::from("MODE_ID")),
        Err(SetupError::PropertyNotFound)
    );
}

fn plane_props() -> Vec<(u32, String)> {
    vec![
        (301u32, String::from("FB_ID")),
        (302u32, String::from("CRTC_ID")),
        (303u32, String::from("SRC_X")),
        (304u32, String::from("SRC_Y")),
        (305u32, String::from("SRC_W")),
        (306u32, String::from("SRC_H")),
        (307u32, String::from("CRTC_X")),
        (308u32, String::from("CRTC_Y")),
        (309u32, String::from("CRTC_W")),
        (310u32, String::from("CRTC_H")),
    ]
}

#[test]
fn commit_request_binds_the_whole_pipeline() {
    let conn_props = vec![(101u32, String::from("CRTC_ID"))];
    let crtc_props = vec![(201u32, String::from("MODE_ID")), (202u32, String::from("ACTIVE"))];
    let ids = resolve_prop_ids(&conn_props, &crtc_props, &plane_props()).unwrap();
    assert_eq!(ids.conn_crtc_id, 101);
    assert_eq!(ids.crtc_mode_id, 201);
    assert_eq!(ids.plane_crtc_h, 310);
    let req = build_commit_request(31, 41, 51, 61, 71, 64, 2008, &ids);
    assert_eq!(req.len(), 13);
    assert_eq!(req[0].object, 31);
    assert_eq!(req[0].prop, 101);
    assert_eq!(req[0].value, PropValue::Crtc(Some(41)));
    assert_eq!(req[1].value, PropValue::Blob(71));
    assert_eq!(req[2].value, PropValue::Boolean(true));
    assert_eq!(req[3].value, PropValue::Framebuffer(Some(61)));
    // Source rectangle is the full mode size in 16.16 fixed point.
    assert_eq!(req[7].value, PropValue::UnsignedRange(64 << 16));
    assert_eq!(req[8].value, PropValue::UnsignedRange(2008 << 16));
    assert_eq!(req[9].value, PropValue::SignedRange(0));
    // Destination rectangle is the full mode size at the origin.
    assert_eq!(req[11].value, PropValue::UnsignedRange(64));
    assert_eq!(req[12].value, PropValue::UnsignedRange(2008));
    for a in &req[3..] {
        assert_eq!(a.object, 51);
    }
}

#[test]
fn missing_property_fails_resolution() {
    let conn_props = vec![(101u32, String::from("EDID"))];
    let crtc_props = vec![(201u32, String::from("MODE_ID")), (202u32, String::from("ACTIVE"))];
    assert_eq!(
        resolve_prop_ids(&conn_props, &crtc_props, &plane_props()).unwrap_err(),
        SetupError::PropertyNotFound
    );
}
