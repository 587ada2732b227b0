//! Choosing a free private address block from the sandbox descriptors that
//! exist, and the descriptor text that reserves one.
use vstd::prelude::*;
use vstd::string::*;
use crate::error::Error;
use crate::text::{
    all_digits, char_is_digit, concat, dec, decimal, digit_char, digit_run, is_digit, lemma_line_len_at, lines_of, push_all, push_char, slice_of, strip_cr, split_lines, views,
};

verus! {

/// Number of candidate blocks: third octets `0` to `254`.
pub const POOL_SIZE: u8 = 255;

pub open spec fn host_prefix() -> Seq<char> {
    "HOST_ADDRESS=10.233."@
}

pub open spec fn local_prefix() -> Seq<char> {
    "LOCAL_ADDRESS=10.233."@
}

pub open spec fn starts_with(s: Seq<char>, p: Seq<char>) -> bool {
    p.len() <= s.len() && s.take(p.len() as int) == p
}

/// `rest` is `<digits>.<digits>`; the first digit group.
pub open spec fn octet_after(rest: Seq<char>) -> Option<Seq<char>> {
    let k = digit_run(rest);
    if k > 0 && k + 1 < rest.len() && rest[k as int] == '.' && all_digits(rest.skip(k + 1 as int)) {
        Some(rest.take(k as int))
    } else {
        None
    }
}

/// The third octet that a descriptor line reserves: the line is
/// `HOST_ADDRESS=10.233.<digits>.<digits>` or
/// `LOCAL_ADDRESS=10.233.<digits>.<digits>`, and nothing else.
pub open spec fn address_octet(l: Seq<char>) -> Option<Seq<char>> {
    if starts_with(l, host_prefix()) {
        octet_after(l.skip(host_prefix().len() as int))
    } else if starts_with(l, local_prefix()) {
        octet_after(l.skip(local_prefix().len() as int))
    } else {
        None
    }
}

/// Some line of the descriptor text `t` reserves block `p`.
pub open spec fn text_takes(t: Seq<char>, p: nat) -> bool {
    exists|j: int| 0 <= j < lines_of(t).len() && address_octet(#[trigger] lines_of(t)[j]) == Some(dec(p))
}

/// Block `p` is reserved by one of the first `n` descriptors.
pub open spec fn taken_before(descs: Seq<Seq<char>>, n: int, p: nat) -> bool {
    exists|i: int| 0 <= i < n && text_takes(#[trigger] descs[i], p)
}

/// Block `p` is reserved by some descriptor.
pub open spec fn block_taken(descs: Seq<Seq<char>>, p: nat) -> bool {
    taken_before(descs, descs.len() as int, p)
}

/// The lowest block from `p` on that no descriptor reserves.
pub open spec fn lowest_free_from(descs: Seq<Seq<char>>, p: nat) -> Option<nat>
    decreases 255 - p,
{
    if p >= 255 {
        None
    } else if !block_taken(descs, p) {
        Some(p)
    } else {
        lowest_free_from(descs, p + 1)
    }
}

/// The lowest free block, if any.
pub open spec fn lowest_free(descs: Seq<Seq<char>>) -> Option<nat> {
    lowest_free_from(descs, 0)
}

/// The network prefix of block `p`.
pub open spec fn block_text(p: nat) -> Seq<char> {
    "10.233."@ + dec(p)
}

/// The descriptor that reserves the block with prefix `b`.
pub open spec fn descriptor_spec(b: Seq<char>) -> Seq<char> {
    "PRIVATE_NETWORK=1"@ + seq!['\n'] + "HOST_ADDRESS="@ + b + ".1"@ + seq!['\n']
        + "LOCAL_ADDRESS="@ + b + ".2"@ + seq!['\n'] + "AUTO_START=0"@ + seq!['\n']
}

pub proof fn lemma_digit_run_at(s: Seq<char>, k: int)
    requires
        0 <= k <= s.len(),
        forall|i: int| 0 <= i < k ==> is_digit(s[i]),
        k == s.len() || !is_digit(s[k]),
    ensures
        digit_run(s) == k,
    decreases k,
{
    if k > 0 {
        lemma_digit_run_at(s.drop_first(), k - 1);
    }
}

/// Whether `s` begins with `p`.
pub fn has_prefix(s: &str, p: &str) -> (r: bool)
    ensures
        r == starts_with(s@, p@),
{
    let n = s.unicode_len();
    let m = p.unicode_len();
    if m > n {
        return false;
    }
    let mut i: usize = 0;
    while i < m
        invariant
            n == s@.len(),
            m == p@.len(),
            m <= n,
            i <= m,
            forall|k: int| 0 <= k < i ==> s@[k] == p@[k],
        decreases m - i,
    {
        if s.get_char(i) != p.get_char(i) {
            proof {
                assert(s@.take(m as int)[i as int] != p@[i as int]);
            }
            return false;
        }
        i = i + 1;
    }
    proof {
        assert(s@.take(m as int) =~= p@);
    }
    true
}

/// The first digit group of `<digits>.<digits>` at index `from` of `l`.
fn octet_at(l: &str, from: usize) -> (r: Option<String>)
    requires
        from <= l@.len(),
    ensures
        match r {
            Some(o) => octet_after(l@.skip(from as int)) == Some(o@),
            None => octet_after(l@.skip(from as int)) is None,
        },
{
    let n = l.unicode_len();
    let ghost rest = l@.skip(from as int);
    let mut j: usize = from;
    while j < n && char_is_digit(l.get_char(j))
        invariant
            n == l@.len(),
            from <= j <= n,
            forall|i: int| from <= i < j ==> is_digit(l@[i]),
        decreases n - j,
    {
        j = j + 1;
    }
    proof {
        lemma_digit_run_at(rest, j - from);
    }
    if j == from || j >= n || l.get_char(j) != '.' || j + 1 >= n {
        return None;
    }
    let mut e: usize = j + 1;
    while e < n
        invariant
            n == l@.len(),
            from < j < n,
            j + 1 <= e <= n,
            rest == l@.skip(from as int),
            digit_run(rest) == j - from,
            forall|i: int| j + 1 <= i < e ==> is_digit(l@[i]),
        decreases n - e,
    {
        if !char_is_digit(l.get_char(e)) {
            proof {
                assert(rest.skip(j - from + 1)[e - j - 1] == l@[e as int]);
                assert(!all_digits(rest.skip(j - from + 1)));
            }
            return None;
        }
        e = e + 1;
    }
    let o = slice_of(l, from, j);
    proof {
        assert(o@ =~= rest.take(j - from));
        assert(all_digits(rest.skip(j - from + 1)));
    }
    Some(o)
}

/// The third octet that the descriptor line `l` reserves (see `address_octet`).
pub fn line_octet(l: &str) -> (r: Option<String>)
    ensures
        match r {
            Some(o) => address_octet(l@) == Some(o@),
            None => address_octet(l@) is None,
        },
{
    if has_prefix(l, "HOST_ADDRESS=10.233.") {
        octet_at(l, "HOST_ADDRESS=10.233.".unicode_len())
    } else if has_prefix(l, "LOCAL_ADDRESS=10.233.") {
        octet_at(l, "LOCAL_ADDRESS=10.233.".unicode_len())
    } else {
        None
    }
}

/// Marks in `used` each block whose decimal text is `o`.
fn mark_octet(used: &mut Vec<bool>, o: &String)
    requires
        old(used)@.len() == 255,
    ensures
        final(used)@.len() == 255,
        forall|p: int| 0 <= p < 255 ==> #[trigger] final(used)@[p] == (old(used)@[p] || o@ == dec(p as nat)),
{
    let mut q: usize = 0;
    while q < 255
        invariant
            q <= 255,
            used@.len() == 255,
            forall|p: int| 0 <= p < q ==> #[trigger] used@[p] == (old(used)@[p] || o@ == dec(p as nat)),
            forall|p: int| q <= p < 255 ==> #[trigger] used@[p] == old(used)@[p],
        decreases 255 - q,
    {
        let d = decimal(q as u8);
        if *o == d {
            used.set(q, true);
        }
        q = q + 1;
    }
}

/// Marks in `used` each block that a line of the descriptor text `t` reserves.
fn mark_text(used: &mut Vec<bool>, t: &str)
    requires
        old(used)@.len() == 255,
    ensures
        final(used)@.len() == 255,
        forall|p: int| 0 <= p < 255 ==> #[trigger] final(used)@[p] == (old(used)@[p] || text_takes(t@, p as nat)),
{
    let lines = split_lines(t);
    let ghost ls = lines_of(t@);
    let mut j: usize = 0;
    while j < lines.len()
        invariant
            j <= lines@.len(),
            views(lines@) == ls,
            ls == lines_of(t@),
            used@.len() == 255,
            forall|p: int| 0 <= p < 255 ==> #[trigger] used@[p] == (old(used)@[p] || exists|k: int|
                0 <= k < j && address_octet(#[trigger] ls[k]) == Some(dec(p as nat))),
        decreases lines@.len() - j,
    {
        assert(ls[j as int] == lines@[j as int]@);
        let ghost before = used@;
        match line_octet(lines[j].as_str()) {
            Some(o) => {
                mark_octet(used, &o);
            },
            None => {},
        }
        proof {
            assert forall|p: int| 0 <= p < 255 implies #[trigger] used@[p] == (old(used)@[p] || exists|k: int|
                0 <= k < j + 1 && address_octet(#[trigger] ls[k]) == Some(dec(p as nat))) by {
                if address_octet(ls[j as int]) == Some(dec(p as nat)) {
                    assert(used@[p]);
                } else {
                    assert(used@[p] == before[p]);
                    if exists|k: int| 0 <= k < j + 1 && address_octet(#[trigger] ls[k]) == Some(dec(p as nat)) {
                        let k = choose|k: int| 0 <= k < j + 1 && address_octet(#[trigger] ls[k]) == Some(dec(p as nat));
                        assert(k < j);
                    }
                }
            }
        }
        j = j + 1;
    }
}

/// The lowest block that no descriptor text in `descriptors` reserves.
pub fn free_octet(descriptors: &Vec<String>) -> (r: Option<u8>)
    ensures
        match r {
            Some(p) => lowest_free(views(descriptors@)) == Some(p as nat),
            None => lowest_free(views(descriptors@)) is None,
        },
{
    let ghost ds = views(descriptors@);
    let mut used: Vec<bool> = Vec::new();
    while used.len() < 255
        invariant
            used@.len() <= 255,
            forall|p: int| 0 <= p < used@.len() ==> !#[trigger] used@[p],
        decreases 255 - used@.len(),
    {
        used.push(false);
    }
    let mut i: usize = 0;
    while i < descriptors.len()
        invariant
            i <= descriptors@.len(),
            ds == views(descriptors@),
            used@.len() == 255,
            forall|p: int| 0 <= p < 255 ==> #[trigger] used@[p] == taken_before(ds, i as int, p as nat),
        decreases descriptors@.len() - i,
    {
        assert(ds[i as int] == descriptors@[i as int]@);
        let ghost before = used@;
        mark_text(&mut used, descriptors[i].as_str());
        proof {
            assert forall|p: int| 0 <= p < 255 implies #[trigger] used@[p] == taken_before(ds, i + 1, p as nat) by {
                if text_takes(ds[i as int], p as nat) {
                    assert(used@[p]);
                } else {
                    assert(used@[p] == before[p]);
                    if taken_before(ds, i + 1, p as nat) {
                        let k = choose|k: int| 0 <= k < i + 1 && text_takes(#[trigger] ds[k], p as nat);
                        assert(k < i);
                    }
                }
            }
        }
        i = i + 1;
    }
    let mut q: usize = 0;
    while q < 255
        invariant
            q <= 255,
            ds == views(descriptors@),
            ds.len() == descriptors@.len(),
            used@.len() == 255,
            forall|p: int| 0 <= p < 255 ==> #[trigger] used@[p] == block_taken(ds, p as nat),
            lowest_free(ds) == lowest_free_from(ds, q as nat),
        decreases 255 - q,
    {
        if !used[q] {
            return Some(q as u8);
        }
        q = q + 1;
    }
    None
}

/// A free block's network prefix, `10.233.<octet>`, with the lowest free
/// octet; a `ControlError` when every block is reserved.
pub fn unused_ip_block(descriptors: &Vec<String>) -> (r: Result<String, Error>)
    ensures
        match lowest_free(views(descriptors@)) {
            Some(p) => r matches Ok(b) && b@ == block_text(p),
            None => r matches Err(Error::ControlError(m)) && m@ == "Out of IP addresses"@,
        },
{
    match free_octet(descriptors) {
        Some(p) => {
            let d = decimal(p);
            Ok(concat("10.233.", d.as_str()))
        },
        None => Err(Error::ControlError(String::from_str("Out of IP addresses"))),
    }
}

/// The descriptor text that reserves the block with prefix `block`: private
/// networking, host address `<block>.1`, guest address `<block>.2`, no
/// autostart.
pub fn descriptor_text(block: &str) -> (r: String)
    ensures
        r@ == descriptor_spec(block@),
{
    let mut r = String::new();
    push_all(&mut r, "PRIVATE_NETWORK=1");
    push_char(&mut r, '\n');
    push_all(&mut r, "HOST_ADDRESS=");
    push_all(&mut r, block);
    push_all(&mut r, ".1");
    push_char(&mut r, '\n');
    push_all(&mut r, "LOCAL_ADDRESS=");
    push_all(&mut r, block);
    push_all(&mut r, ".2");
    push_char(&mut r, '\n');
    push_all(&mut r, "AUTO_START=0");
    push_char(&mut r, '\n');
    proof {
        assert(r@ =~= descriptor_spec(block@));
    }
    r
}

pub proof fn lemma_dec_digits(n: nat)
    ensures
        all_digits(dec(n)),
        dec(n).len() > 0,
    decreases n,
{
    if n >= 10 {
        lemma_dec_digits(n / 10);
        assert(all_digits(dec(n / 10).push(digit_char(n % 10))));
    }
}

/// Splitting after a first line `a` that is free of line ends.
pub proof fn lemma_lines_cons(a: Seq<char>, rest: Seq<char>)
    requires
        forall|i: int| 0 <= i < a.len() ==> a[i] != '\n',
    ensures
        lines_of(a + seq!['\n'] + rest) == seq![strip_cr(a)] + lines_of(rest),
{
    let t = a + seq!['\n'] + rest;
    lemma_line_len_at(t, a.len() as int);
    assert(t.take(a.len() as int) =~= a);
    assert(t.skip(a.len() + 1 as int) =~= rest);
}

/// The descriptor written for block `p` reserves block `p`.
pub proof fn lemma_descriptor_takes(p: nat)
    ensures
        text_takes(descriptor_spec(block_text(p)), p),
{
    reveal_strlit("PRIVATE_NETWORK=1");
    reveal_strlit("HOST_ADDRESS=");
    reveal_strlit("LOCAL_ADDRESS=");
    reveal_strlit("HOST_ADDRESS=10.233.");
    reveal_strlit("10.233.");
    reveal_strlit(".1");
    reveal_strlit(".2");
    reveal_strlit("AUTO_START=0");
    lemma_dec_digits(p);
    let b = block_text(p);
    let l0 = "PRIVATE_NETWORK=1"@;
    let l1 = "HOST_ADDRESS="@ + b + ".1"@;
    let l2 = "LOCAL_ADDRESS="@ + b + ".2"@;
    let l3 = "AUTO_START=0"@;
    let nl = seq!['\n'];
    let r2 = l2 + nl + l3 + nl;
    let r1 = l1 + nl + r2;
    assert(descriptor_spec(b) =~= l0 + nl + r1);
    assert forall|i: int| 0 <= i < l0.len() implies l0[i] != '\n' by {}
    assert forall|i: int| 0 <= i < l1.len() implies l1[i] != '\n' by {
        if 20 <= i < 20 + dec(p).len() {
            assert(l1[i] == dec(p)[i - 20]);
            assert(is_digit(dec(p)[i - 20]));
        }
    }
    lemma_lines_cons(l0, r1);
    lemma_lines_cons(l1, r2);
    let ls = lines_of(descriptor_spec(b));
    assert(ls[1] == strip_cr(l1));
    assert(strip_cr(l1) == l1);
    assert(l1.take(20) =~= host_prefix());
    let rest = l1.skip(20);
    let k = dec(p).len();
    assert(rest =~= dec(p) + ".1"@);
    lemma_digit_run_at(rest, k as int);
    assert(rest.skip(k + 1 as int) =~= ".1"@.skip(1));
    assert(rest.take(k as int) =~= dec(p));
    assert(address_octet(ls[1]) == Some(dec(p)));
}

/// What `lowest_free_from` picks: the first unreserved block from `s` on.
pub proof fn lemma_lowest_free_from(descs: Seq<Seq<char>>, s: nat)
    ensures
        match lowest_free_from(descs, s) {
            Some(p) => s <= p < 255 && !block_taken(descs, p) && forall|q: nat|
                s <= q < p ==> #[trigger] block_taken(descs, q),
            None => forall|q: nat| s <= q < 255 ==> #[trigger] block_taken(descs, q),
        },
    decreases 255 - s,
{
    if s < 255 && block_taken(descs, s) {
        lemma_lowest_free_from(descs, s + 1);
    }
}

/// A descriptor added to the set reserves every block reserved before.
pub proof fn lemma_taken_grows(descs: Seq<Seq<char>>, d: Seq<char>, q: nat)
    requires
        block_taken(descs, q),
    ensures
        block_taken(descs.push(d), q),
{
    let i = choose|i: int| 0 <= i < descs.len() && text_takes(#[trigger] descs[i], q);
    assert(descs.push(d)[i] == descs[i]);
}

/// Allocation never hands out a reserved block: the block chosen is
/// reserved by none of the live descriptors, and once its own descriptor is
/// written, it is reserved and the next allocation chooses a higher block,
/// or none.
pub proof fn lemma_allocation_unique(descs: Seq<Seq<char>>, p: nat)
    requires
        lowest_free(descs) == Some(p),
    ensures
        p < 255,
        !block_taken(descs, p),
        block_taken(descs.push(descriptor_spec(block_text(p))), p),
        match lowest_free(descs.push(descriptor_spec(block_text(p)))) {
            Some(q) => q > p,
            None => true,
        },
{
    let d = descriptor_spec(block_text(p));
    let after = descs.push(d);
    lemma_lowest_free_from(descs, 0);
    lemma_descriptor_takes(p);
    assert(after[descs.len() as int] == d);
    assert(block_taken(after, p));
    lemma_lowest_free_from(after, 0);
    match lowest_free(after) {
        Some(q) => {
            if q < p {
                lemma_taken_grows(descs, d, q);
            }
        },
        None => {},
    }
}

/// Releasing a block (removing the descriptor that reserved it) makes it the
/// block that the next allocation chooses again.
pub proof fn lemma_release_reallocates(descs: Seq<Seq<char>>, p: nat)
    requires
        lowest_free(descs) == Some(p),
    ensures
        lowest_free(descs.push(descriptor_spec(block_text(p))).remove(descs.len() as int)) == Some(p),
{
    assert(descs.push(descriptor_spec(block_text(p))).remove(descs.len() as int) =~= descs);
}

} // verus!
