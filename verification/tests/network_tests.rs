use gba_orca::network::{ipv4_string, score_interface, server_info_from, IfaceAddr};

#[test]
fn scores() {
    assert_eq!(score_interface("Wi-Fi", [192, 168, 1, 5]), 80);
    // "vethernet" and "wsl" (-200), "ethernet" and "eth" (+100), 172.20/12 (+5)
    assert_eq!(score_interface("vEthernet (WSL)", [172, 20, 0, 1]), -95);
    assert_eq!(score_interface("eth0", [10, 0, 0, 2]), 70);
    assert_eq!(score_interface("docker0", [172, 17, 0, 1]), -95);
    assert_eq!(score_interface("enp3s0", [192, 169, 0, 1]), 0);
    assert_eq!(score_interface("WLAN", [172, 32, 0, 1]), 50);
    assert_eq!(score_interface("tailscale0", [100, 64, 0, 1]), -100);
}

#[test]
fn dotted_decimal() {
    assert_eq!(ipv4_string([192, 168, 0, 10]), "192.168.0.10");
    assert_eq!(ipv4_string([0, 0, 0, 0]), "0.0.0.0");
    assert_eq!(ipv4_string([255, 255, 255, 255]), "255.255.255.255");
}

#[test]
fn server_info_filters_and_ranks() {
    let info = server_info_from(vec![
        ("lo".to_string(), IfaceAddr::V4([127, 0, 0, 1])),
        ("docker0".to_string(), IfaceAddr::V4([172, 17, 0, 1])),
        ("eth0".to_string(), IfaceAddr::V4([10, 0, 0, 2])),
        ("eth0".to_string(), IfaceAddr::Other),
        ("wlan0".to_string(), IfaceAddr::V4([192, 168, 1, 20])),
        ("zeroconf".to_string(), IfaceAddr::V4([169, 254, 3, 4])),
        ("enp1".to_string(), IfaceAddr::V4([100, 1, 1, 1])),
        ("enp2".to_string(), IfaceAddr::V4([100, 1, 1, 2])),
    ]);
    assert_eq!(info.port, 8080);
    assert_eq!(info.webrtc_port, 8889);
    let names: Vec<&str> = info.interfaces.iter().map(|i| i.name.as_str()).collect();
    assert_eq!(names, vec!["wlan0", "eth0", "enp1", "enp2", "docker0"]);
    let scores: Vec<i32> = info.interfaces.iter().map(|i| i.score).collect();
    assert_eq!(scores, vec![80, 70, 0, 0, -95]);
    assert_eq!(info.interfaces[0].ip, "192.168.1.20");
    assert_eq!(info.interfaces[3].ip, "100.1.1.2");
}

#[test]
fn empty_host() {
    assert!(server_info_from(vec![]).interfaces.is_empty());
}
