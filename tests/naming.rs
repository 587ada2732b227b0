use fragile::naming::{
    conf_file, container_root, gcroots_dir, name_from_draws, probably_unique_name, profile_dir,
    profiles_root, sandbox_name, system_init,
};

#[test]
fn draws_map_to_symbols() {
    assert_eq!(name_from_draws(&vec![0, 9, 10, 35]), "09az");
    assert_eq!(name_from_draws(&vec![]), "");
}

#[test]
fn random_names_have_the_alphabet_and_length() {
    let n = probably_unique_name(20);
    assert_eq!(n.chars().count(), 20);
    assert!(n.chars().all(|c| c.is_ascii_digit() || c.is_ascii_lowercase()));
    assert_eq!(probably_unique_name(0), "");
}

#[test]
fn sandbox_names_are_tagged() {
    let n = sandbox_name();
    assert_eq!(n.len(), 11);
    assert!(n.starts_with("fr"));
    assert!(n[2..].chars().all(|c| c.is_ascii_digit() || c.is_ascii_lowercase()));
}

#[test]
fn paths_of_a_sandbox() {
    assert_eq!(profile_dir("frx"), "/nix/var/nix/profiles/per-container/frx");
    assert_eq!(container_root("frx"), "/var/lib/containers/frx");
    assert_eq!(conf_file("frx"), "/etc/containers/frx.conf");
    assert_eq!(gcroots_dir("frx"), "/nix/var/nix/gcroots/per-container/frx");
}

#[test]
fn shared_directories() {
    let d = system_init();
    assert_eq!(d.len(), 2);
    assert_eq!((d[0].mode, d[0].path.as_str()), (0o755, "/etc/containers"));
    assert_eq!((d[1].mode, d[1].path.as_str()), (0o700, "/var/lib/containers"));
    let p = profiles_root();
    assert_eq!((p.mode, p.path.as_str()), (0o700, "/nix/var/nix/profiles/per-container"));
}
