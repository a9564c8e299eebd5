use qrcode::QrCode;
use smart_garden::display::{DrawOp, Font};
use smart_garden::init::{disp_step, DisplaySetupAction, DisplaySetupEvent};
use smart_garden::ip_poller::{detected_ip_url, poll_frame};
use smart_garden::qr_fit::fit;
use smart_garden::test_display::test_display;

#[test]
fn no_ip_frame() {
    let ops = poll_frame(None).unwrap();
    assert_eq!(ops.len(), 4);
    assert!(matches!(ops[0], DrawOp::Clear));
    assert!(matches!(ops[1], DrawOp::Clear));
    match &ops[2] {
        DrawOp::Text { text, x, y, font } => {
            assert_eq!(text, "NO IP");
            assert_eq!((*x, *y), (0, 0));
            assert_eq!(*font, Font::Font12x16);
        }
        other => panic!("unexpected {:?}", other),
    }
    assert!(matches!(ops[3], DrawOp::Flush));
}

#[test]
fn url_of_ip() {
    assert_eq!(detected_ip_url(&"192.168.100.62".to_string()), "http://192.168.100.62");
}

#[test]
fn ip_frame_shows_fitted_qr_code() {
    let ip = "192.168.1.5".to_string();
    let ops = poll_frame(Some(ip.clone())).unwrap();
    let text = QrCode::new("http://192.168.1.5")
        .unwrap()
        .render::<char>()
        .quiet_zone(false)
        .module_dimensions(1, 1)
        .build();
    let grid = fit(text);
    assert_eq!(ops.len(), 1 + 62 * 62 + 4);
    assert!(matches!(ops[0], DrawOp::Clear));
    let mut lit = 0;
    for x in 0..62usize {
        for y in 0..62usize {
            match &ops[1 + x * 62 + y] {
                DrawOp::Pixel { x: px, y: py, on } => {
                    assert_eq!((*px, *py), (x as i32 + 1, y as i32 + 1));
                    assert_eq!(*on, grid[x][y] == 0);
                    if *on {
                        lit += 1;
                    }
                }
                other => panic!("unexpected {:?}", other),
            }
        }
    }
    assert!(lit > 0 && lit < 62 * 62);
    match &ops[1 + 62 * 62] {
        DrawOp::Rectangle { left, top, right, bottom, stroke_width } => {
            assert_eq!((*left, *top, *right, *bottom, *stroke_width), (0, 0, 63, 63, 1));
        }
        other => panic!("unexpected {:?}", other),
    }
    match &ops[2 + 62 * 62] {
        DrawOp::Text { text, x, y, font } => {
            assert_eq!(text, "192.168");
            assert_eq!((*x, *y, *font), (66, 0, Font::Font8x16));
        }
        other => panic!("unexpected {:?}", other),
    }
    match &ops[3 + 62 * 62] {
        DrawOp::Text { text, x, y, font } => {
            assert_eq!(text, "192.168");
            assert_eq!((*x, *y, *font), (66, 18, Font::Font8x16));
        }
        other => panic!("unexpected {:?}", other),
    }
    assert!(matches!(ops[4 + 62 * 62], DrawOp::Flush));
}

#[test]
fn long_ascii_addresses_still_encode() {
    let mixed = "a1".repeat(296) + "b";
    assert_eq!(mixed.len(), 593);
    assert!(poll_frame(Some(mixed)).is_ok());
    let symbols = "a:Z~".repeat(148) + "0";
    assert_eq!(symbols.len(), 593);
    assert!(poll_frame(Some(symbols)).is_ok());
    let ipv6 = "fe80:0000:0000:0000:0202:b3ff:fe1e:8329".to_string();
    assert!(poll_frame(Some(ipv6)).is_ok());
}

#[test]
fn too_long_address_fails() {
    let ip = "9".repeat(8000);
    assert!(poll_frame(Some(ip)).is_err());
}

#[test]
fn greeting_lines() {
    let ops = test_display();
    let expected = [
        ("Selamat Idul Fitri", 0),
        ("1441H, mohon maaf", 10),
        ("lahir dan batin!", 20),
        ("- MADE IN RUST LANG -", 40),
    ];
    assert_eq!(ops.len(), 5);
    for (i, (line, height)) in expected.iter().enumerate() {
        match &ops[i] {
            DrawOp::Text { text, x, y, font } => {
                assert_eq!(text, line);
                assert_eq!((*x, *y, *font), (0, *height, Font::Font6x8));
            }
            other => panic!("unexpected {:?}", other),
        }
    }
    assert!(matches!(ops[4], DrawOp::Flush));
}

#[test]
fn display_setup_steps() {
    assert_eq!(disp_step(DisplaySetupEvent::BusOpened), DisplaySetupAction::StartDisplay);
    assert_eq!(disp_step(DisplaySetupEvent::BusFailed), DisplaySetupAction::RetryAfter { secs: 5 });
    assert_eq!(disp_step(DisplaySetupEvent::DisplayStarted), DisplaySetupAction::Finish);
    assert_eq!(disp_step(DisplaySetupEvent::DisplayFailed), DisplaySetupAction::RetryAfter { secs: 5 });
}
