use combo_box::buffer::{Server, Upstream};
use combo_box::proxy::Proxy;
use combo_box::settings::{Section, Settings};

#[test]
fn section_list_and_names() {
    let sections = Section::list();
    assert_eq!(sections, vec![Section::Buffer, Section::ScaleFactor]);
    assert_eq!(sections[0].name(), "Buffer");
    assert_eq!(sections[1].name(), "Scale Factor");
}

#[test]
fn settings_open_section() {
    let mut settings = Settings::new(7);
    assert_eq!(settings.section, Section::Buffer);
    assert_eq!(settings.window, 7);
    settings.open_section(Section::ScaleFactor);
    assert_eq!(settings.section, Section::ScaleFactor);
}

#[test]
fn server_buffer_targets_server() {
    let server = Server::new("libera".to_string());
    assert_eq!(server.server, "libera".to_string());
    assert_eq!(server.buffer, Upstream::Server("libera".to_string()));
}

#[test]
fn proxy_variants_carry_fields() {
    let proxy = Proxy::Socks5 {
        host: "localhost".to_string(),
        port: 1080,
        username: Some("user".to_string()),
        password: None,
    };
    match proxy {
        Proxy::Socks5 { host, port, username, password } => {
            assert_eq!(host, "localhost".to_string());
            assert_eq!(port, 1080);
            assert_eq!(username, Some("user".to_string()));
            assert_eq!(password, None);
        }
        _ => panic!("wrong variant"),
    }
    assert_eq!(Proxy::Tor, Proxy::Tor);
}
