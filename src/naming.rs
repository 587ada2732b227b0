//! Sandbox identities and the on-disk places named after them.
use vstd::prelude::*;
use crate::text::{concat, push_char};

verus! {

/// Number of symbols that an identity is drawn from: `0-9` and `a-z`.
pub const ALPHABET_SIZE: u8 = 36;

/// Number of random symbols in a sandbox name, after its `fr` tag.
pub const NAME_LENGTH: usize = 9;

/// The symbol for draw `v`: a digit below ten, a lowercase letter above.
pub open spec fn symbol(v: u8) -> char {
    if v < 10 {
        ((v + 48) as u8) as char
    } else {
        ((v + 87) as u8) as char
    }
}

pub open spec fn is_symbol(c: char) -> bool {
    ('0' <= c && c <= '9') || ('a' <= c && c <= 'z')
}

/// Relies on rand's `thread_rng` and `Rng::gen_range`: a uniform draw from
/// `0..n`, which is below `n`; `gen_range` panics on an empty range.
#[verifier::external_body]
fn draw_below(n: u8) -> (r: u8)
    requires
        n > 0,
    ensures
        r < n,
{
    rand::Rng::gen_range(&mut rand::thread_rng(), 0..n)
}

/// The text spelled by `draws`, each draw mapped to its symbol.
pub fn name_from_draws(draws: &Vec<u8>) -> (r: String)
    requires
        forall|i: int| 0 <= i < draws@.len() ==> draws@[i] < ALPHABET_SIZE,
    ensures
        r@ == draws@.map_values(|v: u8| symbol(v)),
{
    let mut r = String::new();
    let mut i: usize = 0;
    while i < draws.len()
        invariant
            i <= draws@.len(),
            forall|k: int| 0 <= k < draws@.len() ==> draws@[k] < ALPHABET_SIZE,
            r@ == draws@.subrange(0, i as int).map_values(|v: u8| symbol(v)),
        decreases draws@.len() - i,
    {
        let v = draws[i];
        let c = if v < 10 {
            ((v + 48) as u8) as char
        } else {
            ((v + 87) as u8) as char
        };
        push_char(&mut r, c);
        proof {
            assert(draws@.subrange(0, i + 1).map_values(|v: u8| symbol(v)) =~= draws@.subrange(
                0,
                i as int,
            ).map_values(|v: u8| symbol(v)).push(symbol(v)));
        }
        i = i + 1;
    }
    proof {
        assert(draws@.subrange(0, i as int) =~= draws@);
    }
    r
}

/// A random token of `length` symbols from `0-9a-z`.
pub fn probably_unique_name(length: usize) -> (r: String)
    ensures
        r@.len() == length,
        forall|i: int| 0 <= i < length ==> is_symbol(#[trigger] r@[i]),
{
    let mut draws: Vec<u8> = Vec::new();
    while draws.len() < length
        invariant
            draws@.len() <= length,
            forall|i: int| 0 <= i < draws@.len() ==> draws@[i] < ALPHABET_SIZE,
        decreases length - draws@.len(),
    {
        let v = draw_below(ALPHABET_SIZE);
        draws.push(v);
    }
    let r = name_from_draws(&draws);
    proof {
        assert forall|i: int| 0 <= i < length implies is_symbol(#[trigger] r@[i]) by {
            assert(r@[i] == symbol(draws@[i]));
        }
    }
    r
}

/// A fresh sandbox name: `fr` and nine random symbols.
pub fn sandbox_name() -> (r: String)
    ensures
        r@.len() == 2 + NAME_LENGTH,
        r@.take(2) == "fr"@,
        forall|i: int| 2 <= i < r@.len() ==> is_symbol(#[trigger] r@[i]),
{
    let tail = probably_unique_name(NAME_LENGTH);
    let r = concat("fr", tail.as_str());
    proof {
        reveal_strlit("fr");
        assert(r@.take(2) =~= "fr"@);
        assert forall|i: int| 2 <= i < r@.len() implies is_symbol(#[trigger] r@[i]) by {
            assert(r@[i] == tail@[i - 2]);
        }
    }
    r
}

/// A directory that must exist before any sandbox is made, and its mode.
#[derive(Debug)]
pub struct DirRequest {
    pub mode: u32,
    pub path: String,
}

/// The shared directories: descriptors (`0o755`) and sandbox roots (`0o700`).
pub fn system_init() -> (r: Vec<DirRequest>)
    ensures
        r@.len() == 2,
        r@[0].mode == 0o755 && r@[0].path@ == "/etc/containers"@,
        r@[1].mode == 0o700 && r@[1].path@ == "/var/lib/containers"@,
{
    let mut r: Vec<DirRequest> = Vec::new();
    r.push(DirRequest { mode: 0o755, path: String::from_str("/etc/containers") });
    r.push(DirRequest { mode: 0o700, path: String::from_str("/var/lib/containers") });
    r
}

/// The directory that holds the profiles of all sandboxes, kept private.
pub fn profiles_root() -> (r: DirRequest)
    ensures
        r.mode == 0o700,
        r.path@ == "/nix/var/nix/profiles/per-container"@,
{
    DirRequest { mode: 0o700, path: String::from_str("/nix/var/nix/profiles/per-container") }
}

pub open spec fn profile_dir_spec(name: Seq<char>) -> Seq<char> {
    "/nix/var/nix/profiles/per-container/"@ + name
}

pub open spec fn container_root_spec(name: Seq<char>) -> Seq<char> {
    "/var/lib/containers/"@ + name
}

pub open spec fn conf_file_spec(name: Seq<char>) -> Seq<char> {
    "/etc/containers/"@ + name + ".conf"@
}

pub open spec fn gcroots_dir_spec(name: Seq<char>) -> Seq<char> {
    "/nix/var/nix/gcroots/per-container/"@ + name
}

/// The sandbox's profile directory.
pub fn profile_dir(name: &str) -> (r: String)
    ensures
        r@ == profile_dir_spec(name@),
{
    concat("/nix/var/nix/profiles/per-container/", name)
}

/// The sandbox's root directory.
pub fn container_root(name: &str) -> (r: String)
    ensures
        r@ == container_root_spec(name@),
{
    concat("/var/lib/containers/", name)
}

/// The sandbox's descriptor file.
pub fn conf_file(name: &str) -> (r: String)
    ensures
        r@ == conf_file_spec(name@),
{
    let a = concat("/etc/containers/", name);
    concat(a.as_str(), ".conf")
}

/// The builder's root-protection entries for the sandbox.
pub fn gcroots_dir(name: &str) -> (r: String)
    ensures
        r@ == gcroots_dir_spec(name@),
{
    concat("/nix/var/nix/gcroots/per-container/", name)
}

} // verus!
