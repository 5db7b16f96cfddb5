use cyrene_compass::update::{
    external_url_allowed, installer_name_check, release_check_step, update_installer_name,
    ReleaseCheckStep, UpdateDownload, UPDATE_MIN_INSTALLER_SIZE,
};

const URL: &str = "https://github.com/Cyrene2008/CyreneCompass/releases/download/v26.0.3/CyreneCompass_26.0.3_x64-setup.exe";

#[test]
fn only_official_release_addresses_are_downloaded() {
    let err = UpdateDownload::new("https://example.com/setup.exe", 0).err().unwrap();
    assert_eq!(err, "更新地址不属于 CyreneCompass 官方发布源");
    let d = UpdateDownload::new(URL, 0).ok().unwrap();
    assert_eq!(d.candidates.len(), 5);
    assert_eq!(d.candidates[0], URL);
    assert_eq!(d.candidates[1], format!("https://v4.gh-proxy.com/{}", URL));
    assert_eq!(d.candidates[2], format!("https://gh.昔涟.cn/{}", URL));
    assert_eq!(d.candidates[3], format!("https://ghproxy.net/{}", URL));
    assert_eq!(d.candidates[4], format!("https://ghfast.top/{}", URL));
}

fn installer(len: usize) -> Vec<u8> {
    let mut b = vec![0u8; len];
    b[0] = b'M';
    b[1] = b'Z';
    b
}

#[test]
fn every_failing_mirror_is_reported_in_order() {
    let mut d = UpdateDownload::new(URL, 0).ok().unwrap();
    d.record_request_error("timeout");
    assert!(!d.accept_response("Text/HTML; charset=utf-8", Some(10)));
    d.record_http_status("404 Not Found");
    assert!(d.accept_response("application/octet-stream", None));
    assert_eq!(d.receive_chunk(&[1, 2, 3]), None);
    d.chunk_failed("reset");
    assert_eq!(d.finish_candidate(), None);
    assert!(d.accept_response("application/octet-stream", Some(3)));
    assert_eq!(d.receive_chunk(b"MZ!"), Some(99));
    assert_eq!(d.finish_candidate(), None);
    assert_eq!(d.current_candidate(), None);
    let expected = format!(
        "更新下载失败：{u}：timeout；https://gh-proxy.com/{u} 返回了非安装程序内容；https://gh.昔涟.cn/{u} 返回 HTTP 404 Not Found；https://ghproxy.net/{u} 下载中断：reset；https://ghproxy.net/{u} 安装包体积异常；https://ghfast.top/{u} 安装包体积异常",
        u = URL
    );
    assert_eq!(d.failure_message(), expected);
}

#[test]
fn a_complete_installer_is_accepted_with_progress() {
    let mut d = UpdateDownload::new(URL, UPDATE_MIN_INSTALLER_SIZE as u64 * 2).ok().unwrap();
    assert_eq!(d.current_candidate().as_deref(), Some(URL));
    assert!(d.accept_response("application/octet-stream", Some(1)));
    assert_eq!(d.total, UPDATE_MIN_INSTALLER_SIZE as u64 * 2);
    let body = installer(UPDATE_MIN_INSTALLER_SIZE * 2);
    let (first, second) = body.split_at(UPDATE_MIN_INSTALLER_SIZE);
    assert_eq!(d.receive_chunk(first), Some(49));
    assert_eq!(d.receive_chunk(second), Some(99));
    assert_eq!(d.finish_candidate(), Some(body));
}

#[test]
fn wrong_size_or_header_is_rejected() {
    let mut d = UpdateDownload::new(URL, 5).ok().unwrap();
    assert!(d.accept_response("", None));
    d.receive_chunk(&installer(UPDATE_MIN_INSTALLER_SIZE));
    assert_eq!(d.finish_candidate(), None);
    assert_eq!(d.failures, vec![format!("{} 安装包大小校验失败", URL)]);
    let mut d = UpdateDownload::new(URL, 0).ok().unwrap();
    assert!(d.accept_response("", None));
    d.receive_chunk(&vec![0u8; UPDATE_MIN_INSTALLER_SIZE]);
    assert_eq!(d.finish_candidate(), None);
    assert_eq!(d.failures, vec![format!("{} 不是有效的 Windows 安装程序", URL)]);
}

#[test]
fn installer_names_must_be_official_bare_names() {
    assert_eq!(update_installer_name("CyreneCompass_26.0.3_x64-setup.exe"), Ok("CyreneCompass_26.0.3_x64-setup.exe".to_string()));
    assert_eq!(
        update_installer_name("../CyreneCompass_26.0.3_x64-setup.exe"),
        Err("安装包文件名不属于 CyreneCompass 官方格式".to_string())
    );
    assert_eq!(update_installer_name("evil.exe"), Err("安装包文件名不属于 CyreneCompass 官方格式".to_string()));
    assert_eq!(update_installer_name(".."), Err("安装包文件名无效".to_string()));
    assert_eq!(installer_name_check("x", None), Err("安装包文件名无效".to_string()));
}

#[test]
fn only_project_and_licence_pages_open() {
    assert!(external_url_allowed("https://github.com/Cyrene2008/CyreneCompass"));
    assert!(external_url_allowed("https://github.com/Cyrene2008/CyreneCompass/releases"));
    assert!(!external_url_allowed("https://github.com/Cyrene2008/CyreneCompassEvil"));
    assert!(external_url_allowed("https://www.gnu.org/licenses/gpl-3.0.html"));
    assert!(external_url_allowed("https://www.gnu.org/licenses/gpl-3.0.en.html"));
    assert!(!external_url_allowed("https://www.gnu.org/licenses/gpl-2.0.html"));
}

#[test]
fn release_check_asks_the_api_then_its_mirror() {
    match release_check_step(0, false) {
        ReleaseCheckStep::Ask(url) => {
            assert_eq!(url, "https://api.github.com/repos/Cyrene2008/CyreneCompass/releases/latest")
        }
        _ => panic!("the first address is asked first"),
    }
    match release_check_step(1, false) {
        ReleaseCheckStep::Ask(url) => {
            assert_eq!(url, "https://api.kkgithub.com/repos/Cyrene2008/CyreneCompass/releases/latest")
        }
        _ => panic!("the mirror is asked after a failure"),
    }
    match release_check_step(2, false) {
        ReleaseCheckStep::GiveUp(message) => assert_eq!(message, "无法连接到更新服务器"),
        _ => panic!("both addresses failed"),
    }
}

#[test]
fn release_check_takes_the_first_good_reply() {
    assert!(matches!(release_check_step(1, true), ReleaseCheckStep::Accept));
    assert!(matches!(release_check_step(2, true), ReleaseCheckStep::Accept));
    assert!(matches!(release_check_step(0, true), ReleaseCheckStep::Ask(_)));
}

#[test]
fn refused_response_keeps_the_download_state() {
    let mut d = UpdateDownload::new(URL, 0).ok().unwrap();
    assert!(d.accept_response("application/octet-stream", Some(100)));
    assert_eq!(d.receive_chunk(&[1, 2, 3]), Some(2));
    assert!(!d.accept_response("text/html; charset=utf-8", Some(10)));
    assert_eq!(d.next, 1);
    assert_eq!(d.total, 100);
    assert_eq!(d.bytes, vec![1, 2, 3]);
    assert_eq!(d.last_progress, 2);
    assert_eq!(d.failures, vec![format!("{} 返回了非安装程序内容", URL)]);
}

#[test]
fn recorded_failures_keep_the_download_state() {
    let mut d = UpdateDownload::new(URL, 0).ok().unwrap();
    assert!(d.accept_response("application/octet-stream", Some(100)));
    assert_eq!(d.receive_chunk(&[7, 8, 9, 10]), Some(3));
    d.chunk_failed("timed out");
    assert_eq!(d.next, 0);
    assert!(d.bytes.is_empty());
    assert_eq!(d.total, 100);
    assert_eq!(d.last_progress, 3);
    d.record_http_status("404");
    assert_eq!(d.next, 1);
    assert_eq!(d.total, 100);
    assert_eq!(d.last_progress, 3);
    d.record_request_error("connection refused");
    assert_eq!(d.next, 2);
    assert_eq!(d.total, 100);
    assert_eq!(d.last_progress, 3);
    assert_eq!(
        d.failures,
        vec![
            format!("{} 下载中断：timed out", URL),
            format!("{} 返回 HTTP 404", URL),
            format!("https://v4.gh-proxy.com/{}：connection refused", URL),
        ]
    );
}
