use cyrene_compass::startup::{
    command_failure_text, instance_ack_bytes, instance_ping_bytes, is_instance_ack, is_instance_ping,
    no_activate_flags, no_activate_style, startup_command, startup_helper_params, startup_needs_helper,
    startup_request,
};

fn strings(v: &[&str]) -> Vec<String> {
    v.iter().map(|s| s.to_string()).collect()
}

#[test]
fn helper_arguments_are_read() {
    assert_eq!(startup_request(&strings(&["app.exe"])), None);
    assert_eq!(
        startup_request(&strings(&["app.exe", "--cyrene-configure-startup=enable"])),
        Some((true, "scheduled".to_string()))
    );
    assert_eq!(
        startup_request(&strings(&["app", "--cyrene-startup-mode=registry", "--cyrene-configure-startup=disable"])),
        Some((false, "registry".to_string()))
    );
    assert_eq!(startup_helper_params(true, "scheduled"), "--cyrene-configure-startup=enable --cyrene-startup-mode=scheduled");
    let params = startup_helper_params(false, "registry");
    let args = strings(&["x"].iter().chain(params.split(' ').collect::<Vec<_>>().iter()).cloned().collect::<Vec<_>>());
    assert_eq!(startup_request(&args), Some((false, "registry".to_string())));
}

#[test]
fn startup_commands() {
    let (p, a) = startup_command(true, "scheduled", "C:\\App\\c.exe");
    assert_eq!(p, "schtasks");
    assert_eq!(
        a,
        strings(&["/Create", "/TN", "CyreneCompassAutoStart", "/TR", "\"C:\\App\\c.exe\" --cyrene-autostart", "/SC", "ONLOGON", "/RL", "HIGHEST", "/F"])
    );
    let (p, a) = startup_command(false, "scheduled", "x");
    assert_eq!((p.as_str(), a), ("schtasks", strings(&["/Delete", "/TN", "CyreneCompassAutoStart", "/F"])));
    let (p, a) = startup_command(true, "registry", "x");
    assert_eq!(p, "reg");
    assert_eq!(
        a,
        strings(&["add", "HKCU\\Software\\Microsoft\\Windows\\CurrentVersion\\Run", "/v", "CyreneCompass", "/t", "REG_SZ", "/d", "\"x\" --cyrene-autostart", "/f"])
    );
    let (p, a) = startup_command(false, "registry", "x");
    assert_eq!(p, "reg");
    assert_eq!(a, strings(&["delete", "HKCU\\Software\\Microsoft\\Windows\\CurrentVersion\\Run", "/v", "CyreneCompass", "/f"]));
    assert!(startup_needs_helper("scheduled", false));
    assert!(!startup_needs_helper("scheduled", true));
    assert!(!startup_needs_helper("registry", false));
    assert_eq!(command_failure_text(" out \n", ""), "out");
    assert_eq!(command_failure_text("out", "  err\r\n"), "err");
}

#[test]
fn instance_handshake() {
    assert_eq!(instance_ping_bytes(), b"CYRENE_COMPASS_SHOW\n".to_vec());
    assert_eq!(instance_ack_bytes(), b"CYRENE_COMPASS_ACK\n".to_vec());
    let mut buf = [0u8; 64];
    buf[..20].copy_from_slice(b"CYRENE_COMPASS_SHOW\n");
    assert!(is_instance_ping(&buf));
    assert!(!is_instance_ping(b"CYRENE_COMPASS_SHO"));
    assert!(is_instance_ack(b"CYRENE_COMPASS_ACK\n"));
    assert!(!is_instance_ack(b"CYRENE_COMPASS_ACK\nX"));
}

#[test]
fn window_styles() {
    let style = 0x0004_0000 | 0x0000_0100;
    assert_eq!(no_activate_style(style, true), 0x0800_0000 | 0x80 | 0x100);
    assert_eq!(no_activate_style(0x0800_0000 | 0x0004_0000, false), 0x80);
    assert_eq!(no_activate_style(-1, false), !(0x0800_0000 | 0x0004_0000));
    assert_eq!(no_activate_flags(true), 0x73);
    assert_eq!(no_activate_flags(false), 0x63);
}
