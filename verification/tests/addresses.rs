use proxichat::connect_hook::{address_on_port, relay_address};
use proxichat::ipconfig::listen_address;
use proxichat::text::{chars_of, find, is_white_space, occurs, trim_bounds};

const IPCONFIG: &str = "\r\nWindows IP Configuration\r\n\r\n\r\nEthernet adapter Ethernet:\r\n\r\n   Connection-specific DNS Suffix  . : lan\r\n   Link-local IPv6 Address . . . . . : fe80::1c2d:3e4f:5a6b:7c8d%12\r\n   IPv4 Address. . . . . . . . . . . : 192.168.1.23\r\n   Subnet Mask . . . . . . . . . . . : 255.255.255.0\r\n   Default Gateway . . . . . . . . . : 192.168.1.1\r\n\r\nEthernet adapter vEthernet (WSL):\r\n\r\n   Connection-specific DNS Suffix  . :\r\n   IPv4 Address. . . . . . . . . . . : 172.24.80.1\r\n   Subnet Mask . . . . . . . . . . . : 255.255.240.0\r\n   Default Gateway . . . . . . . . . :\r\n";

/// The address as the words of the module say it, by the means of the standard library.
fn by_std(output: &str) -> Option<String> {
    output
        .split('\n')
        .filter(|line| line.contains("  IPv4 Address"))
        .filter_map(|line| line.split(':').nth(1))
        .map(|addr| addr.trim())
        .last()
        .map(|addr| format!("{addr}:8081"))
}

#[test]
fn relay_is_on_the_host_of_the_game_server() {
    assert_eq!(relay_address("192.168.1.5:37015"), Some("192.168.1.5:8081".to_string()));
    assert_eq!(relay_address("192.168.1.5"), Some("192.168.1.5:8081".to_string()));
    assert_eq!(relay_address("example.org:1:2"), Some("example.org:8081".to_string()));
    assert_eq!(relay_address("[::1]:37015"), Some("[:8081".to_string()));
}

#[test]
fn own_machine_has_no_relay() {
    assert_eq!(relay_address("localhost"), None);
    assert_eq!(relay_address("localhost:37015"), None);
    assert_eq!(relay_address("localhost:"), None);
}

#[test]
fn only_the_exact_name_is_the_own_machine() {
    assert_eq!(relay_address("Localhost:37015"), Some("Localhost:8081".to_string()));
    assert_eq!(relay_address("localhost.lan"), Some("localhost.lan:8081".to_string()));
    assert_eq!(relay_address(" localhost"), Some(" localhost:8081".to_string()));
    assert_eq!(relay_address("127.0.0.1:37015"), Some("127.0.0.1:8081".to_string()));
}

#[test]
fn empty_host_is_kept() {
    assert_eq!(relay_address(""), Some(":8081".to_string()));
    assert_eq!(relay_address(":37015"), Some(":8081".to_string()));
}

#[test]
fn host_may_hold_any_characters() {
    assert_eq!(relay_address("münchen.example:1"), Some("münchen.example:8081".to_string()));
    assert_eq!(relay_address("日本:1"), Some("日本:8081".to_string()));
}

#[test]
fn port_follows_the_host() {
    assert_eq!(address_on_port("10.0.0.1"), "10.0.0.1:8081");
    assert_eq!(address_on_port(""), ":8081");
}

#[test]
fn last_ipv4_line_gives_the_listen_address() {
    assert_eq!(listen_address(IPCONFIG), Some("172.24.80.1:8081".to_string()));
    assert_eq!(listen_address(IPCONFIG), by_std(IPCONFIG));
}

#[test]
fn single_line_without_line_end() {
    let output = "   IPv4 Address. . . : 10.1.2.3";
    assert_eq!(listen_address(output), Some("10.1.2.3:8081".to_string()));
}

#[test]
fn no_ipv4_line_gives_no_address() {
    assert_eq!(listen_address(""), None);
    assert_eq!(listen_address("\n\n\n"), None);
    assert_eq!(listen_address("Windows IP Configuration\r\n   Subnet Mask . : 255.0.0.0\r\n"), None);
    assert_eq!(listen_address(" IPv4 Address : 1.2.3.4\n"), None);
    assert_eq!(listen_address("  IPv6 Address : 1.2.3.4\n"), None);
}

#[test]
fn marked_line_without_a_colon_is_passed_over() {
    let output = "   IPv4 Address. . . : 10.1.2.3\r\n   IPv4 Address 10.9.9.9\r\n";
    assert_eq!(listen_address(output), Some("10.1.2.3:8081".to_string()));
    assert_eq!(listen_address(output), by_std(output));
}

#[test]
fn address_ends_at_the_second_colon() {
    let output = "   IPv4 Address. . . : 10.1.2.3 : preferred\n";
    assert_eq!(listen_address(output), Some("10.1.2.3:8081".to_string()));
    let output = "   IPv4 Address::\n";
    assert_eq!(listen_address(output), Some(":8081".to_string()));
}

#[test]
fn marker_may_stand_behind_the_colon() {
    let output = "x: y  IPv4 Address\n";
    assert_eq!(listen_address(output), Some("y  IPv4 Address:8081".to_string()));
    assert_eq!(listen_address(output), by_std(output));
}

#[test]
fn white_space_of_any_kind_is_trimmed() {
    let output = "  IPv4 Address:\u{a0}\t 10.0.0.7\u{2003}\u{3000}\r\n";
    assert_eq!(listen_address(output), Some("10.0.0.7:8081".to_string()));
    assert_eq!(listen_address(output), by_std(output));
    let output = "  IPv4 Address: 10. 0.0.7 \n";
    assert_eq!(listen_address(output), Some("10. 0.0.7:8081".to_string()));
}

#[test]
fn listen_address_agrees_with_std_on_many_outputs() {
    let outputs = [
        "",
        "\n",
        ":",
        "  IPv4 Address",
        "  IPv4 Address:",
        "  IPv4 Address: ",
        "  IPv4 Address:a\n  IPv4 Address:b",
        "  IPv4 Address:a\n  IPv4 Address:b\n",
        "  IPv4 Address:a\n\n",
        "  IPv4 Address:a\nnothing\n  IPv4 Address\n",
        "   IPv4 Address:a:b:c\r\n",
        "IPv4 Address:a\n",
        "  IPv4  Address:a\n",
        "é  IPv4 Address : ü \n",
        "  IPv4 Addres  IPv4 Address: ok\n",
        "   IPv4 Addres\ns: split\n",
    ];
    for output in outputs {
        assert_eq!(listen_address(output), by_std(output), "{output:?}");
    }
}

#[test]
fn white_space_is_what_std_calls_white_space() {
    for code in 0u32..=0x10ffff {
        if let Some(c) = char::from_u32(code) {
            assert_eq!(is_white_space(c), c.is_whitespace(), "{code:#x}");
        }
    }
}

#[test]
fn characters_are_listed_in_order() {
    assert_eq!(chars_of(""), Vec::<char>::new());
    assert_eq!(chars_of("aé日\n"), vec!['a', 'é', '日', '\n']);
}

#[test]
fn find_stops_at_the_first_match_or_the_end() {
    let chars = chars_of("ab:cd:e");
    assert_eq!(find(&chars, 0, chars.len(), ':'), 2);
    assert_eq!(find(&chars, 2, chars.len(), ':'), 2);
    assert_eq!(find(&chars, 3, chars.len(), ':'), 5);
    assert_eq!(find(&chars, 6, chars.len(), ':'), 7);
    assert_eq!(find(&chars, 0, 2, ':'), 2);
    assert_eq!(find(&chars, 3, 5, ':'), 5);
    assert_eq!(find(&chars, 4, 4, ':'), 4);
    assert_eq!(find(&chars, 0, chars.len(), 'x'), 7);
}

#[test]
fn occurs_looks_only_between_the_bounds() {
    let chars = chars_of("xxabcxx");
    let pattern = chars_of("abc");
    assert!(occurs(&chars, 0, 7, &pattern));
    assert!(occurs(&chars, 2, 5, &pattern));
    assert!(!occurs(&chars, 3, 7, &pattern));
    assert!(!occurs(&chars, 0, 4, &pattern));
    assert!(!occurs(&chars, 2, 4, &pattern));
    assert!(occurs(&chars, 3, 3, &Vec::new()));
    assert!(occurs(&chars, 0, 7, &Vec::new()));
    assert!(!occurs(&chars, 0, 7, &chars_of("abd")));
    assert!(occurs(&chars_of("aab"), 0, 3, &chars_of("ab")));
}

#[test]
fn trim_bounds_close_in_from_both_ends() {
    let chars = chars_of("  ab c \t");
    assert_eq!(trim_bounds(&chars, 0, chars.len()), (2, 6));
    assert_eq!(trim_bounds(&chars, 2, 6), (2, 6));
    assert_eq!(trim_bounds(&chars, 3, 5), (3, 4));
    assert_eq!(trim_bounds(&chars, 0, 2), (2, 2));
    assert_eq!(trim_bounds(&chars, 6, 8), (8, 8));
    assert_eq!(trim_bounds(&chars, 4, 4), (4, 4));
}
