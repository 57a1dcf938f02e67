use kode_bridge::ipc_client::{TrafficData, UnixIpcHttpClient, WindowsIpcHttpClient};

#[test]
fn unix_client_keeps_and_changes_its_path() {
    let mut c = UnixIpcHttpClient::new("/tmp/a.sock");
    assert_eq!(c.socket_path(), "/tmp/a.sock");
    c.set_path("/tmp/b.sock");
    assert_eq!(c.socket_path(), "/tmp/b.sock");
}

#[test]
fn windows_client_keeps_its_path() {
    let c = WindowsIpcHttpClient::new(r"\\.\pipe\svc");
    assert_eq!(c.named_path(), r"\\.\pipe\svc");
}

#[test]
fn clients_frame_close_requests() {
    let c = UnixIpcHttpClient::new("/tmp/a.sock");
    let bytes = c.request_bytes("GET", "/version", None);
    assert_eq!(
        bytes,
        b"GET /version HTTP/1.1\r\nHost: localhost\r\nConnection: close\r\n\r\n".to_vec()
    );
    let w = WindowsIpcHttpClient::new(r"\\.\pipe\svc");
    let bytes = w.request_bytes("PUT", "/configs", Some(b"{\"a\":1}"));
    assert_eq!(
        bytes,
        b"PUT /configs HTTP/1.1\r\nHost: localhost\r\nConnection: close\r\nContent-Type: application/json\r\nContent-Length: 7\r\n\r\n{\"a\":1}".to_vec()
    );
}

#[test]
fn traffic_sample() {
    let t = TrafficData::new(10, 20);
    assert_eq!(t.up, 10);
    assert_eq!(t.down, 20);
    assert_eq!(t, TrafficData { up: 10, down: 20 });
}
