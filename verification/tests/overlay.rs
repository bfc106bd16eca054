use flow_linux::overlay::{
    monitor_bounds, monitor_bounds_fit, overlay_position, overlay_spot_fits, parse_monitor_geometry,
};

#[test]
fn parses_xrandr_monitor_geometry_with_signed_offsets() {
    assert_eq!(
        parse_monitor_geometry("1920/300x1080/170+0+0"),
        Some((0, 0, 1920, 1080))
    );
    assert_eq!(
        parse_monitor_geometry("1920/520x1080/300-1920+0"),
        Some((-1920, 0, 1920, 1080))
    );
}

#[test]
fn parses_monitor_bounds_with_signed_offsets() {
    assert_eq!(
        parse_monitor_geometry("1920/300x1080/170+0+0"),
        Some((0, 0, 1920, 1080))
    );
    assert_eq!(
        parse_monitor_geometry("1920/520x1080/300-1920+0"),
        Some((-1920, 0, 1920, 1080))
    );
}

#[test]
fn rejects_malformed_geometry() {
    assert_eq!(parse_monitor_geometry(""), None);
    assert_eq!(parse_monitor_geometry("1920/300x1080/170"), None);
    assert_eq!(parse_monitor_geometry("1920/300x1080+0+0"), None);
    assert_eq!(parse_monitor_geometry("abc/300x1080/170+0+0"), None);
    assert_eq!(parse_monitor_geometry("1920/300x1080/170+0+"), None);
    assert_eq!(parse_monitor_geometry("3000000000/300x1080/170+0+0"), None);
    assert_eq!(parse_monitor_geometry("1920x1080/170+10-20"), Some((10, -20, 1920, 1080)));
}

const LISTING: &str = "Monitors: 2\n 0: +*DP-1 1920/520x1080/300+0+0  DP-1\n 1: +HDMI-1 1280/300x1024/200-1280+0  HDMI-1\n";

#[test]
fn chooses_the_monitor_holding_the_window_center() {
    let geometry = "WINDOW=1\nX=-900\nY=100\nWIDTH=400\nHEIGHT=300\nSCREEN=0\n";
    assert_eq!(
        monitor_bounds(LISTING, Some(geometry)),
        Some((-1280, 0, 1280, 1024))
    );
}

#[test]
fn falls_back_to_the_primary_monitor() {
    assert_eq!(monitor_bounds(LISTING, None), Some((0, 0, 1920, 1080)));
    let outside = "X=5000\nY=5000\nWIDTH=10\nHEIGHT=10\n";
    assert_eq!(monitor_bounds(LISTING, Some(outside)), Some((0, 0, 1920, 1080)));
    let no_primary = "Monitors: 1\n 0: +HDMI-1 1280/300x1024/200-1280+0  HDMI-1\n";
    assert_eq!(monitor_bounds(no_primary, None), Some((-1280, 0, 1280, 1024)));
    assert_eq!(monitor_bounds("Monitors: 0\n", None), None);
}

#[test]
fn incomplete_window_geometry_gives_no_monitor() {
    assert_eq!(monitor_bounds(LISTING, Some("X=1\nY=2\nWIDTH=3\n")), None);
}

#[test]
fn later_geometry_lines_win() {
    let geometry = "X=10\nY=10\nWIDTH=10\nHEIGHT=10\nX=-600\n";
    assert_eq!(
        monitor_bounds(LISTING, Some(geometry)),
        Some((-1280, 0, 1280, 1024))
    );
}

#[test]
fn overlay_sits_centered_above_the_bottom_edge() {
    assert_eq!(overlay_position((0, 0, 1920, 1080), 100), (800, 980));
    assert_eq!(overlay_position((-1280, 0, 1280, 1024), 94), (-800, 930));
    assert_eq!(overlay_position((0, 0, 301, 600), 100), (-9, 500));
}

#[test]
fn overflowing_sums_are_reported() {
    assert!(monitor_bounds_fit(LISTING, None));
    assert!(monitor_bounds_fit(LISTING, Some("X=1\nY=2\nWIDTH=3\nHEIGHT=4\n")));
    assert!(!monitor_bounds_fit(
        LISTING,
        Some("X=2147483647\nY=0\nWIDTH=10\nHEIGHT=10\n")
    ));
    let wide = "Monitors: 1\n 0: +*DP-1 2147483647/520x1080/300+10+0  DP-1\n";
    assert!(!monitor_bounds_fit(wide, Some("X=20\nY=0\nWIDTH=0\nHEIGHT=0\n")));
    assert!(monitor_bounds_fit(wide, Some("X=5\nY=0\nWIDTH=0\nHEIGHT=0\n")));
    assert!(overlay_spot_fits((0, 0, 1920, 1080), 100));
    assert!(!overlay_spot_fits((0, i32::MAX, 1920, 1080), 100));
}

#[test]
fn parses_back_the_geometry_that_xrandr_writes() {
    for (w, mw, h, mh, x, y) in [
        (1920u32, 520u32, 1080u32, 300u32, -1920i32, 0i32),
        (2560, 600, 1440, 340, 1920, -120),
        (0, 0, 0, 0, i32::MIN, i32::MAX),
        (i32::MAX as u32, u32::MAX, 7, 0, 0, -1),
    ] {
        let text = format!("{w}/{mw}x{h}/{mh}{x:+}{y:+}");
        assert_eq!(parse_monitor_geometry(&text), Some((x, y, w as i32, h as i32)));
    }
}
