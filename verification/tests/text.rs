use theshy::config::Config;
use theshy::gate::hub::http::{http_reply, ContentSource};
use theshy::gate::hub::line_header::LineType;
use theshy::log::{Log, LogTag};
use theshy::text::{contains_bytes, decimal, find_byte};

#[test]
fn decimal_text() {
    assert_eq!(decimal(0), "0");
    assert_eq!(decimal(7), "7");
    assert_eq!(decimal(1234), "1234");
    assert_eq!(decimal(u64::MAX), "18446744073709551615");
}

#[test]
fn byte_search() {
    assert!(contains_bytes(b"a.js.map", b".js"));
    assert!(!contains_bytes(b"a.j", b".js"));
    assert!(contains_bytes(b"abc", b""));
    assert_eq!(find_byte(b"GET / x", 32, 0), 3);
    assert_eq!(find_byte(b"GET / x", 32, 4), 5);
    assert_eq!(find_byte(b"GET", 32, 0), 3);
    assert_eq!(find_byte(b"GET", 32, 9), 3);
}

#[test]
fn http_reply_codes() {
    assert_eq!(http_reply(&ContentSource::Forbidden, Some(vec![1])), (403, vec![]));
    assert_eq!(http_reply(&ContentSource::File("f".to_string()), Some(vec![1])), (200, vec![1u8]));
    assert_eq!(http_reply(&ContentSource::File("f".to_string()), None), (404, vec![]));
}

#[test]
fn log_paths() {
    assert_eq!(Log::new(LineType::Caller, "12"), "log/Caller/12.log");
    assert_eq!(Log::new(LineType::Fox, LogTag::GoodBye.name()), "log/Fox/GoodBye.log");
    assert_eq!(Log::panic_file(), "log/panic.log");
    assert_eq!(Log::dir(LineType::Http), "log/Http");
    assert_eq!(Log::entry(17, "remove|3"), "17|remove|3\n");
    assert_eq!(LineType::Operator.name(), "Operator");
    assert_eq!(LogTag::Unique.name(), "Unique");
}

const INI: &str = "[listen]\napp = 0.0.0.0:1080\nhttp = 0.0.0.0:8080\n[other]\nworker = 300\nwrite_log = TRUE\n[server]\naddr = 1.2.3.4:443\n";

#[test]
fn config_reads_all_settings() {
    assert_eq!(Config::path(), "theshy.ini");
    let all = Config::get_all(INI.to_string()).unwrap();
    assert_eq!(
        all,
        (
            "0.0.0.0:1080".to_string(),
            "0.0.0.0:8080".to_string(),
            44u8,
            "1.2.3.4:443".to_string(),
            true
        )
    );
    assert_eq!(
        Config::get_listen_addr(INI.to_string()),
        Some(("0.0.0.0:1080".to_string(), "0.0.0.0:8080".to_string()))
    );
    assert_eq!(Config::get_proxy_server_addr(INI.to_string()), Some("1.2.3.4:443".to_string()));
}

#[test]
fn config_missing_or_bad_settings() {
    let no_addr = "[listen]\napp=a\nhttp=b\n[other]\nworker=1\nwrite_log=false\n";
    assert_eq!(Config::get_all(no_addr.to_string()), None);
    assert_eq!(Config::get_proxy_server_addr(no_addr.to_string()), None);
    assert!(Config::get_listen_addr(no_addr.to_string()).is_some());
    let bad_bool = "[listen]\napp=a\nhttp=b\n[other]\nworker=1\nwrite_log=yes\n[server]\naddr=c\n";
    assert_eq!(Config::get_all(bad_bool.to_string()), None);
    let bad_num = "[listen]\napp=a\nhttp=b\n[other]\nworker=-1\nwrite_log=false\n[server]\naddr=c\n";
    assert_eq!(Config::get_all(bad_num.to_string()), None);
    let ok = "[LISTEN]\nAPP=a\nhttp=b\n[other]\nworker=+7\nwrite_log=False\n[server]\naddr=c\n";
    assert_eq!(
        Config::get_all(ok.to_string()),
        Some(("a".to_string(), "b".to_string(), 7u8, "c".to_string(), false))
    );
}
