//! What the library decides about the operating system's answers.

use vstd::prelude::*;
use vstd::string::StringExecFns;

pub mod linux;
pub mod peer;
pub mod windows;

verus! {

/// The name of the file that backs the channel `name`.
pub open spec fn shm_file_text(name: Seq<char>) -> Seq<char> {
    "shmem_ipc_"@ + name
}

/// The name of the file that backs the channel `name`. Which directory it lies in is the
/// operating system's affair: see `shm_path` for Linux; elsewhere it is the one for temporary
/// files.
pub fn shm_file_name(name: &str) -> (r: String)
    ensures
        r@ == shm_file_text(name@),
{
    let mut file = String::from_str("shmem_ipc_");
    file.append(name);
    file
}

/// Where a file of that name lies on Linux: in memory, not on disk.
pub fn shm_file_path(file_name: &str) -> (r: String)
    ensures
        r@ == "/dev/shm/"@ + file_name@,
{
    let mut path = String::from_str("/dev/shm/");
    path.append(file_name);
    path
}

/// The file that backs the channel `name` on Linux.
pub fn shm_path(name: &str) -> (r: String)
    ensures
        r@ == "/dev/shm/"@ + shm_file_text(name@),
{
    let file = shm_file_name(name);
    shm_file_path(file.as_str())
}

/// The number whose low digits are most of the key's entropy: 2^64 over the golden ratio.
pub const WAIT_KEY_FACTOR: u64 = 0x9E37_79B9_7F4A_7C15;

/// `x` with its bits turned 17 places to the left.
pub open spec fn turned17(x: u64) -> u64 {
    (x << 17) | (x >> 47)
}

/// The key that tells the wait objects of one channel from those of another of the same
/// name: from the time in nanoseconds, the process and a counter.
pub open spec fn wait_key(now: nat, pid: u64, counter: u64) -> u64 {
    turned17((now % 0x1_0000_0000_0000_0000) as u64) ^ ((pid as nat * WAIT_KEY_FACTOR as nat)
        % 0x1_0000_0000_0000_0000) as u64 ^ counter
}

/// The key of a new channel.
pub fn new_wait_key(now: u128, pid: u64, counter: u64) -> (r: u64)
    ensures
        r == wait_key(now as nat, pid, counter),
{
    let low: u64 = (now % 0x1_0000_0000_0000_0000) as u64;
    let product: u64 = pid.wrapping_mul(WAIT_KEY_FACTOR);
    proof {
        assert(pid as nat * WAIT_KEY_FACTOR as nat >= 0) by (nonlinear_arith);
    }
    ((low << 17) | (low >> 47)) ^ product ^ counter
}

/// Channels that one process creates at one time have different keys.
pub proof fn law_wait_keys_differ(now: nat, pid: u64, a: u64, b: u64)
    requires
        wait_key(now, pid, a) == wait_key(now, pid, b),
    ensures
        a == b,
{
    let rest = turned17((now % 0x1_0000_0000_0000_0000) as u64) ^ ((pid as nat
        * WAIT_KEY_FACTOR as nat) % 0x1_0000_0000_0000_0000) as u64;
    assert(rest ^ a == rest ^ b ==> a == b) by (bit_vector);
}

/// The file of a channel goes by the channel's name: no two channels share one, and on Linux it
/// lies in memory.
pub proof fn law_file_goes_by_the_name(
    a: &str,
    b: &str,
    file: String,
    other: String,
    path: String,
    at: &str,
    of_file: String,
)
    requires
        call_ensures(shm_file_name, (a,), file),
        call_ensures(shm_file_name, (b,), other),
        call_ensures(shm_path, (a,), path),
        at@ == file@,
        call_ensures(shm_file_path, (at,), of_file),
    ensures
        file@ == "shmem_ipc_"@ + a@,
        path@ == "/dev/shm/"@ + file@,
        of_file@ == path@,
        file@ == other@ ==> a@ == b@,
{
    if file@ == other@ {
        let n = "shmem_ipc_"@.len() as int;
        assert(file@.skip(n) =~= a@);
        assert(other@.skip(n) =~= b@);
    }
}

/// The key of a channel tells it from every other of the same name: keys made at one time and by
/// one process differ if their counters do, keys made at one time and with one counter differ if
/// their processes do, and keys of one process and one counter differ if their times do, counted
/// in the low 64 bits.
pub proof fn law_wait_key_depends_on_everything(
    now: u128,
    pid: u64,
    counter: u64,
    r: u64,
    later: u128,
    a: u64,
    other: u64,
    b: u64,
    next: u64,
    c: u64,
)
    requires
        call_ensures(new_wait_key, (now, pid, counter), r),
        call_ensures(new_wait_key, (later, pid, counter), a),
        call_ensures(new_wait_key, (now, other, counter), b),
        call_ensures(new_wait_key, (now, pid, next), c),
    ensures
        r == a <==> now % 0x1_0000_0000_0000_0000 == later % 0x1_0000_0000_0000_0000,
        r == b <==> pid == other,
        r == c <==> counter == next,
        now == 0 && pid == 0 ==> r == counter,
        now == 0 && pid == 1 && counter == 0 ==> r == 0x9E37_79B9_7F4A_7C15,
        now == 1 && pid == 0 && counter == 0 ==> r == 0x2_0000,
{
    let x = (now % 0x1_0000_0000_0000_0000) as u64;
    let y = (later % 0x1_0000_0000_0000_0000) as u64;
    let p = ((pid as nat * WAIT_KEY_FACTOR as nat) % 0x1_0000_0000_0000_0000) as u64;
    let q = ((other as nat * WAIT_KEY_FACTOR as nat) % 0x1_0000_0000_0000_0000) as u64;
    let s = turned17(x);
    let t = turned17(y);
    assert(s == t ==> x == y) by (bit_vector)
        requires
            s == (x << 17) | (x >> 47),
            t == (y << 17) | (y >> 47),
    ;
    assert(s ^ p ^ counter == t ^ p ^ counter ==> s == t) by (bit_vector);
    assert(s ^ p ^ counter == s ^ q ^ counter ==> p == q) by (bit_vector);
    assert(s ^ p ^ counter == s ^ p ^ next ==> counter == next) by (bit_vector);
    if p == q {
        lemma_factor_keeps_apart(pid as int, other as int);
    }
    assert((0u64 << 17) | (0u64 >> 47) == 0) by (bit_vector);
    assert((1u64 << 17) | (1u64 >> 47) == 0x2_0000) by (bit_vector);
    assert(0u64 ^ 0u64 ^ counter == counter) by (bit_vector);
    assert(0u64 ^ 0x9E37_79B9_7F4A_7C15u64 ^ 0u64 == 0x9E37_79B9_7F4A_7C15u64) by (bit_vector);
    assert(0x2_0000u64 ^ 0u64 ^ 0u64 == 0x2_0000u64) by (bit_vector);
}

/// Numbers of 64 bits stay different when they are multiplied by the key's factor: it has an
/// inverse.
proof fn lemma_factor_keeps_apart(a: int, b: int)
    requires
        0 <= a < 0x1_0000_0000_0000_0000,
        0 <= b < 0x1_0000_0000_0000_0000,
        (a * WAIT_KEY_FACTOR) % 0x1_0000_0000_0000_0000 == (b * WAIT_KEY_FACTOR)
            % 0x1_0000_0000_0000_0000,
    ensures
        a == b,
{
    let m: int = 0x1_0000_0000_0000_0000;
    let f: int = 0x9E37_79B9_7F4A_7C15;
    let inverse: int = 0xF1DE_83E1_9937_733D;
    let d = a - b;
    vstd::arithmetic::div_mod::lemma_mod_equivalence(a * f, b * f, m);
    assert(a * f - b * f == d * f) by (nonlinear_arith)
        requires
            d == a - b,
    ;
    let k = (d * f) / m;
    assert(d * f == m * k) by {
        vstd::arithmetic::div_mod::lemma_fundamental_div_mod(d * f, m);
    }
    let g: int = 10771413168148108919;
    assert(f * inverse == 1 + m * g);
    assert((d * f) * inverse == d * (f * inverse)) by (nonlinear_arith);
    assert(d * (1 + m * g) == d + m * (d * g)) by (nonlinear_arith);
    assert((m * k) * inverse == m * (k * inverse)) by (nonlinear_arith);
    assert(d == m * (k * inverse - d * g)) by (nonlinear_arith)
        requires
            d + m * (d * g) == m * (k * inverse),
    ;
    let n = k * inverse - d * g;
    assert(n == 0) by (nonlinear_arith)
        requires
            d == m * n,
            -m < d < m,
            m > 0,
    ;
}

} // verus!
