use bmw::http::{check_instances, listen_addr, process_on_read, response_page, HttpConfig, HttpInstanceType};
use bmw::read_chain::ReadChain;
use bmw::slabs::SlabStore;
use bmw::startup::{check_arch, next_port_candidate, real_main, try_next_port};

#[test]
fn test_main() {
    assert!(real_main(false).is_ok());
}

#[test]
fn test_debug_startup_32() {
    assert!(real_main(true).is_err());
}

#[test]
fn arch_check() {
    assert!(check_arch(8, false).is_ok());
    let e = check_arch(4, false).unwrap_err();
    assert_eq!(e.kind().message_string(), "Only 64 bit arch supported".to_string());
}

#[test]
fn port_candidates() {
    assert_eq!(next_port_candidate(9000, 12345), (9000 + 2345, 9001 + 2345));
    assert_eq!(next_port_candidate(9500, 7), (9500, 9501));
    assert_eq!(next_port_candidate(65535, 7), (65535, 0));
    let mut counter = 9000u16;
    let _ = try_next_port(&mut counter);
    assert!(counter >= 9001 && counter < 19001);
}

#[test]
fn http_defaults_and_checks() {
    let c = HttpConfig::default();
    assert_eq!(c.instances.len(), 1);
    assert_eq!(c.instances[0].port, 8080);
    assert_eq!(listen_addr(&c.instances[0]), "127.0.0.1:8080".to_string());
    assert_eq!(c.instances[0].listen_queue_size, 100);
    assert_eq!(c.instances[0].http_dir, "~/.bmw/www".to_string());
    assert!(matches!(c.instances[0].instance_type, HttpInstanceType::Plain(_)));
    assert!(check_instances(&c).is_ok());
    let empty = HttpConfig { instances: vec![], ..HttpConfig::default() };
    let e = check_instances(&empty).unwrap_err();
    assert_eq!(e.kind().message_string(), "At least one instance must be specified".to_string());
}

#[test]
fn http_answers_and_clears() {
    let mut slabs = SlabStore::new(4);
    let mut chain = ReadChain::new();
    let mut buf = b"test".to_vec();
    chain.ingest(&mut slabs, &mut buf);
    let page = process_on_read(&mut chain, &mut slabs).unwrap();
    assert_eq!(page.len(), 87);
    assert_eq!(page, response_page());
    assert!(chain.read_all(&slabs).is_empty());
    let mut buf = vec![0xC0u8];
    chain.ingest(&mut slabs, &mut buf);
    assert!(process_on_read(&mut chain, &mut slabs).is_err());
    assert!(chain.read_all(&slabs).is_empty());
}
