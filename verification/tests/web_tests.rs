use meshdrop::pages::LANDING_PAGE;
use meshdrop::transport::{
    bluetooth_detail, direct_connect_step, hotspot_detail, option, transport_plan, update,
    wifi_direct_detail, DIRECT_CONNECT_STEPS, DISCOVERY_BEFORE_STEP,
};
use meshdrop::web_server::{
    app_download_event, app_download_target, attachment_headers, clean_device_name,
    download_event, html_response, landing_page_response, local_ip_url, not_found_response,
    parse_request, parse_user_agent, placeholder_installer, redirect_response, route_request,
    server_error_response, share_page_response, DownloadProgress, HttpRequest, InstallerOs,
    Route, WebShareError, WebShareState, PLACEHOLDER_SIZE,
};

fn req(method: &str, uri: &str) -> HttpRequest {
    HttpRequest { method: method.to_string(), uri: uri.to_string(), user_agent: String::new() }
}

#[test]
fn transport_plan_has_six_routes_in_order() {
    let plan = transport_plan();
    let ids: Vec<&str> = plan.iter().map(|r| r.id.as_str()).collect();
    assert_eq!(
        ids,
        ["bluetooth-proximity", "qr-pairing", "auto-hotspot", "wifi-direct", "lan-fallback", "chunked-tcp"]
    );
    let prios: Vec<u8> = plan.iter().map(|r| r.priority).collect();
    assert_eq!(prios, [1, 2, 3, 4, 5, 6]);
    assert_eq!(plan[0].action.as_deref(), Some("bluetooth-settings"));
    assert_eq!(plan[4].action, None);
    assert_eq!(plan[4].status, "available");
    assert_eq!(plan[5].name, "Chunked TCP transfer");
}

#[test]
fn option_builds_fields() {
    let r = option("i", "n", "r", "s", "d", Some("a"), 9);
    assert_eq!((r.id.as_str(), r.name.as_str(), r.role.as_str(), r.status.as_str(), r.detail.as_str()), ("i", "n", "r", "s", "d"));
    assert_eq!(r.action.as_deref(), Some("a"));
    assert_eq!(r.priority, 9);
}

#[test]
fn update_changes_only_the_named_route() {
    let mut plan = transport_plan();
    let before = plan.clone();
    assert_eq!(update(&mut plan, "wifi-direct", "on", "detail"), Some(3));
    assert_eq!(plan[3].status, "on");
    assert_eq!(plan[3].detail, "detail");
    assert_eq!(plan[3].name, before[3].name);
    for i in [0usize, 1, 2, 4, 5] {
        assert_eq!(plan[i].status, before[i].status);
        assert_eq!(plan[i].detail, before[i].detail);
    }
    assert_eq!(update(&mut plan, "nope", "x", "y"), None);
}

#[test]
fn direct_connect_steps_in_order() {
    let mut plan = transport_plan();
    let mut touched = Vec::new();
    for k in 0..DIRECT_CONNECT_STEPS {
        touched.push(direct_connect_step(&mut plan, k).unwrap());
    }
    assert_eq!(touched, [0, 1, 2, 3, 4, 5]);
    assert_eq!(DISCOVERY_BEFORE_STEP, 4);
    let status: Vec<&str> = plan.iter().map(|r| r.status.as_str()).collect();
    assert_eq!(status, ["scanning", "next", "active", "scanning", "scanning", "ready"]);
    assert_eq!(plan[2].detail, "Hotspot is active. Listening for incoming peer requests.");
}

#[test]
fn platform_details() {
    assert!(bluetooth_detail(true).starts_with("Windows Bluetooth"));
    assert!(bluetooth_detail(false).starts_with("Bluetooth adapter support"));
    assert!(hotspot_detail(true).starts_with("Windows hotspot"));
    assert!(hotspot_detail(false).starts_with("Hotspot creation"));
    assert!(wifi_direct_detail(true).starts_with("Windows WiFi Direct"));
    assert!(wifi_direct_detail(false).starts_with("WiFi Direct availability"));
}

#[test]
fn web_share_state_transitions() {
    let mut s = WebShareState::new();
    assert!(!s.has_active_file());
    assert_eq!(s.start_web_server("/missing", false), Err(WebShareError::TargetMissing));
    assert!(!s.server_running);
    assert_eq!(s.start_web_server("", false), Ok(false));
    assert!(s.server_running);
    assert!(!s.has_active_file());
    assert_eq!(s.start_web_server("/data/a.zip", true), Ok(true));
    assert!(s.has_active_file());
    assert_eq!(s.download_target(), Some("/data/a.zip".to_string()));
    s.stop_web_server();
    assert!(!s.has_active_file());
    assert!(s.server_running);
    assert_eq!(s.download_target(), None);
    s.server_stopped();
    assert!(!s.server_running);
}

#[test]
fn device_names_in_links() {
    assert_eq!(clean_device_name("My Laptop!!"), "my-laptop");
    assert_eq!(clean_device_name("--A__b--"), "a-b");
    assert_eq!(clean_device_name(""), "");
    assert_eq!(clean_device_name("!!!"), "");
    assert_eq!(clean_device_name("ÄB c"), "Äb-c");
    assert_eq!(clean_device_name("DESKTOP-7QX"), "desktop-7qx");
}

#[test]
fn share_link_prefers_home_networks() {
    let hosts = vec!["172.16.0.2".to_string(), "192.168.1.4".to_string(), "10.0.0.5".to_string()];
    assert_eq!(
        local_ip_url(Some("10.0.0.5".to_string()), &hosts, "My PC"),
        "http://192.168.1.4:7880/share/my-pc-browser"
    );
    assert_eq!(local_ip_url(Some("127.0.0.1".to_string()), &vec![], "h"), "http://127.0.0.1:7880/share/h-browser");
    assert_eq!(local_ip_url(Some("0.0.0.0".to_string()), &vec!["172.16.0.9".to_string()], "h"), "http://172.16.0.9:7880/share/h-browser");
    let tie = vec!["172.20.0.1".to_string(), "172.21.0.1".to_string()];
    assert_eq!(local_ip_url(None, &tie, "x"), "http://172.20.0.1:7880/share/x-browser");
    let dup = vec!["10.1.1.1".to_string(), "10.1.1.1".to_string()];
    assert_eq!(local_ip_url(Some("172.16.0.1".to_string()), &dup, "x"), "http://10.1.1.1:7880/share/x-browser");
}

#[test]
fn user_agent_descriptions() {
    assert_eq!(
        parse_user_agent("Mozilla/5.0 (Windows NT 10.0; Win64; x64) AppleWebKit/537.36 Chrome/120.0 Safari/537.36"),
        "Windows PC (Chrome)"
    );
    assert_eq!(
        parse_user_agent("Mozilla/5.0 (iPhone; CPU iPhone OS 17_0 like Mac OS X) AppleWebKit Version/17.0 Mobile Safari/604.1"),
        "iPhone (Safari)"
    );
    assert_eq!(parse_user_agent("Mozilla/5.0 (Linux; Android 14) Chrome/120 Mobile Safari"), "Android Phone (Chrome)");
    assert_eq!(parse_user_agent("Mozilla/5.0 (X11; Linux x86_64; rv:120.0) Gecko Firefox/120.0"), "Linux PC (Firefox)");
    assert_eq!(parse_user_agent("Mozilla/5.0 (Macintosh; Intel Mac OS X) Safari/605"), "Mac (Safari)");
    assert_eq!(parse_user_agent("Edge/18"), "Unknown Device (Edge)");
    assert_eq!(parse_user_agent(""), "Unknown Device (Browser)");
}

#[test]
fn request_parsing() {
    let r = parse_request(b"GET /share/x-browser HTTP/1.1\r\nHost: a\r\nUser-Agent:  Foo Bar \r\n\r\n").unwrap();
    assert_eq!((r.method.as_str(), r.uri.as_str(), r.user_agent.as_str()), ("GET", "/share/x-browser", "Foo Bar"));
    let r2 = parse_request(b"POST /x HTTP/1.1\r\nuSeR-aGeNt:abc\r\nUser-Agent: second\r\n").unwrap();
    assert_eq!((r2.method.as_str(), r2.user_agent.as_str()), ("POST", "abc"));
    let r3 = parse_request(b"GET / HTTP/1.1\r\n\r\n").unwrap();
    assert_eq!(r3.user_agent, "Unknown User-Agent");
    assert!(parse_request(b"GET\r\nUser-Agent: x\r\n").is_none());
    assert!(parse_request(b"").is_none());
    assert!(parse_request(b"   \r\n").is_none());
}

#[test]
fn routing() {
    assert_eq!(route_request(&req("GET", "/"), false), Route::LandingPage);
    assert_eq!(route_request(&req("GET", "/share/pc-browser"), true), Route::SharePage);
    assert_eq!(route_request(&req("GET", "/share/pc-browser"), false), Route::RedirectHome);
    assert_eq!(route_request(&req("GET", "/download"), false), Route::Download);
    assert_eq!(route_request(&req("GET", "/download-app?os=linux"), false), Route::AppDownload);
    assert_eq!(route_request(&req("GET", "/downloads"), false), Route::NotFound);
    assert_eq!(route_request(&req("GET", "/share"), true), Route::NotFound);
    assert_eq!(route_request(&req("POST", "/"), true), Route::Ignored);
    assert_eq!(route_request(&req("get", "/"), true), Route::Ignored);
}

#[test]
fn fixed_responses() {
    assert_eq!(redirect_response("/"), "HTTP/1.1 302 Found\r\nLocation: /\r\nContent-Length: 0\r\nConnection: close\r\n\r\n");
    assert_eq!(not_found_response(), "HTTP/1.1 404 NOT FOUND\r\nContent-Length: 0\r\nConnection: close\r\n\r\n");
    assert_eq!(server_error_response(), "HTTP/1.1 500 INTERNAL SERVER ERROR\r\nContent-Length: 0\r\nConnection: close\r\n\r\n");
    assert_eq!(html_response("hé"), "HTTP/1.1 200 OK\r\nContent-Type: text/html\r\nContent-Length: 3\r\nConnection: close\r\n\r\nhé");
    assert_eq!(
        attachment_headers(42, "a b.txt"),
        "HTTP/1.1 200 OK\r\nContent-Type: application/octet-stream\r\nContent-Length: 42\r\nContent-Disposition: attachment; filename=\"a b.txt\"\r\nConnection: close\r\n\r\n"
    );
    assert_eq!(download_event("f.zip", "10.0.0.3", "Mac (Safari)"), "f.zip|10.0.0.3|Mac (Safari)");
}

#[test]
fn pages() {
    let landing = landing_page_response();
    let header = format!(
        "HTTP/1.1 200 OK\r\nContent-Type: text/html\r\nContent-Length: {}\r\nConnection: close\r\n\r\n",
        LANDING_PAGE.len()
    );
    assert_eq!(landing, format!("{}{}", header, LANDING_PAGE));
    assert!(LANDING_PAGE.contains("<h1>MeshDrop</h1>"));
    let share = share_page_response(Some(("clip.mov".to_string(), "1.50 MB".to_string())));
    assert!(share.contains("<div class=\"file-name\">clip.mov</div>"));
    assert!(share.contains("<div class=\"file-size\">1.50 MB</div>"));
    assert!(share.contains("a.download = \"clip.mov\";"));
    assert!(share.contains("window.onload = function() {"));
    let body_start = share.find("\r\n\r\n").unwrap() + 4;
    let body = &share[body_start..];
    assert!(share.contains(&format!("Content-Length: {}\r\n", body.len())));
    let none = share_page_response(None);
    assert!(none.contains("No active share"));
    assert!(none.contains("<div class=\"file-size\">0 MB</div>"));
}

#[test]
fn download_progress_reports_changes_only() {
    let mut p = DownloadProgress::new(200);
    assert_eq!(p.record(1), None);
    assert_eq!(p.record(1), Some(1));
    assert_eq!(p.record(1), None);
    assert_eq!(p.record(197), Some(100));
    assert_eq!(p.written, 200);
    let mut z = DownloadProgress::new(0);
    assert_eq!(z.record(10), None);
    assert_eq!(z.written, 10);
}

#[test]
fn installers() {
    assert_eq!(app_download_target("/download-app?os=windows"), InstallerOs::Windows);
    assert_eq!(app_download_target("/download-app?os=macos"), InstallerOs::MacOs);
    assert_eq!(app_download_target("/download-app?os=linux"), InstallerOs::Linux);
    assert_eq!(app_download_target("/download-app?os=android"), InstallerOs::Android);
    assert_eq!(app_download_target("/download-app"), InstallerOs::Unknown);
    assert_eq!(app_download_event(InstallerOs::Linux), "linux|meshdrop.deb");
    assert_eq!(app_download_event(InstallerOs::Unknown), "unknown|meshdrop.bin");
    let b = placeholder_installer(InstallerOs::Windows);
    assert_eq!(b.len(), PLACEHOLDER_SIZE);
    let text = "MeshDrop Native windows App Build Installer Placeholder. Place your compiled files in installers/meshdrop.msi to serve a real binary.";
    assert_eq!(&b[..text.len()], text.as_bytes());
    assert!(b[text.len()..].iter().all(|x| *x == 0));
}

#[test]
fn device_name_cleaning_is_idempotent() {
    for n in ["My Laptop!!", "--A__b--", "", "ÄB c", "DESKTOP-7QX", "a--b", "Ünï-Çode 9"] {
        let once = clean_device_name(n);
        assert_eq!(clean_device_name(&once), once);
        assert!(!once.chars().any(|c| c.is_ascii_uppercase()));
        assert!(!once.starts_with('-') && !once.ends_with('-') && !once.contains("--"));
    }
    assert_eq!(clean_device_name("Office PC #2"), "office-pc-2");
}
