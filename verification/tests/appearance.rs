use cyrene_compass::appearance::{
    accent_from_reg_output, accent_step, visual_data_url, visual_mime, visual_mime_for, AccentStep,
    DEFAULT_ACCENT,
};

#[test]
fn images_become_base64_data_urls() {
    assert_eq!(visual_data_url("image/png", b"hello"), "data:image/png;base64,aGVsbG8=");
    assert_eq!(visual_data_url("image/gif", b""), "data:image/gif;base64,");
    assert_eq!(visual_data_url("image/bmp", &[0xff, 0xfe, 0x00, 0x10]), "data:image/bmp;base64,//4AEA==");
}

#[test]
fn images_are_checked_by_kind_and_size() {
    assert_eq!(visual_mime(true, 10, "C:\\pics\\Logo.PNG"), Ok("image/png".to_string()));
    assert_eq!(visual_mime(true, 10, "a.jpeg"), Ok("image/jpeg".to_string()));
    assert_eq!(visual_mime(true, 10, "a.JPG"), Ok("image/jpeg".to_string()));
    assert_eq!(visual_mime(true, 10, "a.webp"), Ok("image/webp".to_string()));
    assert_eq!(visual_mime(true, 10, "a.gif"), Ok("image/gif".to_string()));
    assert_eq!(visual_mime(true, 10, "a.bmp"), Ok("image/bmp".to_string()));
    assert_eq!(visual_mime(true, 10, "a.svg"), Err("不支持的图片格式".to_string()));
    assert_eq!(visual_mime(true, 10, "noext"), Err("不支持的图片格式".to_string()));
    assert_eq!(visual_mime(false, 10, "a.png"), Err("请选择图片文件".to_string()));
    assert_eq!(visual_mime(true, 20 * 1024 * 1024, "a.png"), Ok("image/png".to_string()));
    assert_eq!(visual_mime(true, 20 * 1024 * 1024 + 1, "a.png"), Err("图片最大为 20 MB".to_string()));
    assert_eq!(visual_mime_for(true, 1, Some("Png".to_string())), Ok("image/png".to_string()));
}

#[test]
fn accent_colour_is_read_from_reg_output() {
    let out = "\r\nHKEY_CURRENT_USER\\Software\\Microsoft\\Windows\\DWM\r\n    AccentColor    REG_DWORD    0xffd47800\r\n\r\n";
    assert_eq!(accent_from_reg_output(out), Some("#0078d4".to_string()));
    assert_eq!(accent_from_reg_output("x 0x0x123456"), Some("#563412".to_string()));
    assert_eq!(accent_from_reg_output("x 0x+10"), Some("#100000".to_string()));
    assert_eq!(accent_from_reg_output("x 0xzz 0x10"), None);
    assert_eq!(accent_from_reg_output("x 0x"), None);
    assert_eq!(accent_from_reg_output("x 0x100000000"), None);
    assert_eq!(accent_from_reg_output("no value here"), None);
    assert_eq!(DEFAULT_ACCENT, "#0078d4");
}

#[test]
fn accent_is_read_from_two_registry_values_in_turn() {
    match accent_step(0, None) {
        AccentStep::Query(key, value) => {
            assert_eq!(key, r"HKCU\Software\Microsoft\Windows\CurrentVersion\Explorer\Accent");
            assert_eq!(value, "AccentColorMenu");
        }
        _ => panic!("the first value is queried first"),
    }
    match accent_step(1, Some("ERROR: not found")) {
        AccentStep::Query(key, value) => {
            assert_eq!(key, r"HKCU\Software\Microsoft\Windows\DWM");
            assert_eq!(value, "AccentColor");
        }
        _ => panic!("the second value is queried after a miss"),
    }
    let out = "\r\nHKEY_CURRENT_USER\\Software\\Microsoft\\Windows\\DWM\r\n    AccentColor    REG_DWORD    0xffd47800\r\n";
    match accent_step(2, Some(out)) {
        AccentStep::Found(colour) => assert_eq!(colour, "#0078d4"),
        _ => panic!("a colour was found"),
    }
    match accent_step(1, Some("    AccentColorMenu    REG_DWORD    0xff112233\r\n")) {
        AccentStep::Found(colour) => assert_eq!(colour, "#332211"),
        _ => panic!("a colour was found"),
    }
    match accent_step(2, None) {
        AccentStep::Found(colour) => assert_eq!(colour, DEFAULT_ACCENT),
        _ => panic!("the default is used when both fail"),
    }
}
