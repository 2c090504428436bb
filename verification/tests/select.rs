use compositor::drmx::property::NamedProperty;
use compositor::drmx::Mode;
use compositor::select::{
    compatible_crtcs, pick_connector, pick_crtc, pick_mode, pick_plane, plane_type, ConnectorState,
    PlaneInfo, PlaneType, SelectError,
};

use ConnectorState::{Connected, Disconnected, Unknown};

fn mode(width: u16, mode_type: u32) -> Mode {
    Mode {
        clock: 1,
        hdisplay: width,
        hsync_start: 0,
        hsync_end: 0,
        htotal: 0,
        hskew: 0,
        vdisplay: 100,
        vsync_start: 0,
        vsync_end: 0,
        vtotal: 0,
        vscan: 0,
        vrefresh: 60,
        flags: 0,
        mode_type,
        name: [0; 32],
    }
}

fn property(name: &str, value: u64) -> NamedProperty {
    NamedProperty { id: 1, name: Some(name.to_string()), value }
}

fn plane(handle: u32, crtcs: &[u32], kind: u64) -> Option<PlaneInfo> {
    let properties = Some(vec![property("type", kind)]);
    Some(PlaneInfo { handle, crtcs: crtcs.to_vec(), properties })
}

#[test]
fn the_first_connected_connector_is_used() {
    let connectors = vec![None, Some(Disconnected), Some(Unknown), Some(Connected), Some(Connected)];
    assert_eq!(pick_connector(&connectors), Ok(3));
    let error = pick_connector(&vec![None, Some(Disconnected)]).unwrap_err();
    assert_eq!(error, SelectError::NotConnected);
    assert_eq!(error.message(), "Not connected to any display!");
}

#[test]
fn crtcs_are_gathered_from_readable_encoders() {
    assert_eq!(compatible_crtcs(&vec![Some(vec![3, 1]), None, Some(vec![1, 2])]), vec![3, 1, 1, 2]);
    assert_eq!(compatible_crtcs(&vec![None]), Vec::<u32>::new());
}

#[test]
fn the_crtc_in_use_is_kept() {
    assert_eq!(pick_crtc(&vec![3, 1, 2], Some(2)), Ok(2));
    assert_eq!(pick_crtc(&vec![3, 1, 2], Some(9)), Ok(3));
    assert_eq!(pick_crtc(&vec![3, 1, 2], None), Ok(3));
    let error = pick_crtc(&vec![], Some(2)).unwrap_err();
    assert_eq!(error, SelectError::NoCrtc);
    assert_eq!(error.message(), "Cannot find a suitable CRTC!");
}

#[test]
fn the_first_preferred_mode_is_used() {
    let interface = || "HDMI-A".to_string();
    let modes = vec![mode(1, 0x40), mode(2, 0x48), mode(3, 8)];
    assert_eq!(pick_mode(&modes, interface()).unwrap().size(), (2, 100));
    assert_eq!(pick_mode(&vec![mode(1, 0x40), mode(2, 0)], interface()).unwrap().hdisplay, 1);
    let error = pick_mode(&vec![], interface()).unwrap_err();
    assert_eq!(error, SelectError::NoMode { interface: interface() });
    assert_eq!(error.message(), "Cannot find suitable mode for connector HDMI-A");
}

#[test]
fn only_a_known_type_counts() {
    assert_eq!(plane_type(&vec![property("zpos", 1), property("type", 1)]), Some(PlaneType::Primary));
    assert_eq!(plane_type(&vec![property("type", 7), property("type", 2)]), Some(PlaneType::Cursor));
    assert_eq!(plane_type(&vec![property("type", 0), property("type", 1)]), Some(PlaneType::Overlay));
    assert_eq!(plane_type(&vec![property("type", 7)]), None);
    assert_eq!(plane_type(&vec![NamedProperty { id: 1, name: None, value: 1 }]), None);
}

#[test]
fn the_first_primary_plane_of_the_crtc_is_used() {
    let unreadable = Some(PlaneInfo { handle: 5, crtcs: vec![2], properties: None });
    let planes = vec![
        None,
        unreadable,
        plane(10, &[2], 2),
        plane(11, &[1], 1),
        plane(12, &[1, 2], 1),
        plane(13, &[2], 1),
    ];
    assert_eq!(pick_plane(&planes, 2), Ok(12));
    assert_eq!(pick_plane(&planes, 1), Ok(11));
    let error = pick_plane(&planes, 3).unwrap_err();
    assert_eq!(error, SelectError::NoPrimaryPlane);
    assert_eq!(error.message(), "cannot find suitable primary plane");
}
