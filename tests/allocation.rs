use fragile::allocator::{descriptor_text, free_octet, line_octet, unused_ip_block};
use fragile::error::Error;
use fragile::text::split_lines;

fn descriptors(blocks: &[&str]) -> Vec<String> {
    blocks.iter().map(|b| descriptor_text(b)).collect()
}

#[test]
fn lines_split_at_newlines_and_crlf() {
    assert_eq!(split_lines("a\r\nb\n\nc"), vec!["a", "b", "", "c"]);
    assert_eq!(split_lines("a\n"), vec!["a"]);
    assert_eq!(split_lines("x\r"), vec!["x\r"]);
    assert!(split_lines("").is_empty());
    assert_eq!(split_lines("\n"), vec![""]);
}

#[test]
fn address_lines_give_their_third_octet() {
    assert_eq!(line_octet("HOST_ADDRESS=10.233.5.1"), Some("5".to_string()));
    assert_eq!(line_octet("LOCAL_ADDRESS=10.233.17.2"), Some("17".to_string()));
    assert_eq!(line_octet("HOST_ADDRESS=10.233.05.1"), Some("05".to_string()));
}

#[test]
fn other_lines_give_no_octet() {
    assert_eq!(line_octet("HOST_ADDRESS=10.233.5."), None);
    assert_eq!(line_octet("HOST_ADDRESS=10.233.5.1 "), None);
    assert_eq!(line_octet("HOST_ADDRESS=10.233..1"), None);
    assert_eq!(line_octet("HOST_ADDRESS=10.234.5.1"), None);
    assert_eq!(line_octet("PRIVATE_NETWORK=1"), None);
    assert_eq!(line_octet(""), None);
}

#[test]
fn descriptor_text_is_exact() {
    assert_eq!(
        descriptor_text("10.233.4"),
        "PRIVATE_NETWORK=1\nHOST_ADDRESS=10.233.4.1\nLOCAL_ADDRESS=10.233.4.2\nAUTO_START=0\n"
    );
}

#[test]
fn empty_directory_gives_first_block() {
    assert_eq!(unused_ip_block(&vec![]).unwrap(), "10.233.0");
    assert_eq!(free_octet(&vec![]), Some(0));
}

#[test]
fn lowest_free_block_is_chosen() {
    let d = descriptors(&["10.233.0", "10.233.1", "10.233.3"]);
    assert_eq!(unused_ip_block(&d).unwrap(), "10.233.2");
}

#[test]
fn malformed_descriptors_are_skipped() {
    let d = vec!["garbage\nHOST_ADDRESS=nonsense\n".to_string(), String::new()];
    assert_eq!(unused_ip_block(&d).unwrap(), "10.233.0");
}

#[test]
fn octets_compare_as_text() {
    let d = vec!["HOST_ADDRESS=10.233.0.1\r\nLOCAL_ADDRESS=10.233.01.2\n".to_string()];
    assert_eq!(unused_ip_block(&d).unwrap(), "10.233.1");
}

#[test]
fn only_the_last_block_left() {
    let blocks: Vec<String> = (0..254).map(|p| format!("10.233.{}", p)).collect();
    let d: Vec<String> = blocks.iter().map(|b| descriptor_text(b)).collect();
    assert_eq!(unused_ip_block(&d).unwrap(), "10.233.254");
}

#[test]
fn full_pool_is_exhausted() {
    let blocks: Vec<String> = (0..255).map(|p| format!("10.233.{}", p)).collect();
    let d: Vec<String> = blocks.iter().map(|b| descriptor_text(b)).collect();
    match unused_ip_block(&d) {
        Err(Error::ControlError(m)) => assert_eq!(m, "Out of IP addresses"),
        other => panic!("unexpected {:?}", other),
    }
    assert_eq!(free_octet(&d), None);
}

#[test]
fn persisted_block_is_not_chosen_again() {
    let mut d: Vec<String> = Vec::new();
    let first = unused_ip_block(&d).unwrap();
    d.push(descriptor_text(&first));
    let second = unused_ip_block(&d).unwrap();
    assert_ne!(first, second);
    assert_eq!(second, "10.233.1");
}

#[test]
fn released_block_is_chosen_again() {
    let mut d: Vec<String> = Vec::new();
    let mut chosen = Vec::new();
    for _ in 0..3 {
        let b = unused_ip_block(&d).unwrap();
        d.push(descriptor_text(&b));
        let again = unused_ip_block(&d).unwrap();
        d.pop();
        chosen.push((b, again));
    }
    for (b, again) in chosen {
        assert_eq!(b, "10.233.0");
        assert_eq!(again, "10.233.1");
    }
    d.push(descriptor_text("10.233.0"));
    d.push(descriptor_text("10.233.1"));
    d.remove(0);
    assert_eq!(unused_ip_block(&d).unwrap(), "10.233.0");
}

#[test]
fn serialized_allocations_never_overlap() {
    let mut d: Vec<String> = vec![descriptor_text("10.233.2")];
    let mut seen: Vec<String> = vec!["10.233.2".to_string()];
    for _ in 0..20 {
        let b = unused_ip_block(&d).unwrap();
        assert!(!seen.contains(&b));
        seen.push(b.clone());
        d.push(descriptor_text(&b));
    }
    assert_eq!(seen[1], "10.233.0");
    assert_eq!(seen[2], "10.233.1");
    assert_eq!(seen[3], "10.233.3");
}
