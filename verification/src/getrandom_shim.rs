//! The xorshift64 generator that backs `getrandom` inside WASM plugins.
//!
//! Not cryptographically secure: suitable for UUIDs and other values that
//! protect nothing.
use vstd::prelude::*;

verus! {

/// One step of xorshift64: shifts by 13, 7 and 17.
pub open spec fn xorshift_step(s: u64) -> u64 {
    let a = s ^ (s << 13u64);
    let b = a ^ (a >> 7u64);
    b ^ (b << 17u64)
}

/// The state after `n` steps from `s`.
pub open spec fn xorshift_state(s: u64, n: nat) -> u64
    decreases n,
{
    if n == 0 {
        s
    } else {
        xorshift_step(xorshift_state(s, (n - 1) as nat))
    }
}

/// The `n` bytes that filling from state `s` gives: byte `i` is the low
/// byte of the state after `i + 1` steps.
pub open spec fn xorshift_bytes(s: u64, n: nat) -> Seq<u8>
    decreases n,
{
    if n == 0 {
        seq![]
    } else {
        xorshift_bytes(s, (n - 1) as nat).push(xorshift_state(s, n) as u8)
    }
}

/// The seed taken from the host's clock: the timestamp, or 42 when it is
/// missing or zero.
pub open spec fn seed_of(timestamp: Result<u64, String>) -> u64 {
    match timestamp {
        Ok(t) => if t == 0 {
            42
        } else {
            t
        },
        Err(_) => 42,
    }
}

/// The generator's seed from the host's timestamp (`Err` when the host
/// could not give one); never zero.
pub fn get_seed(timestamp: Result<u64, String>) -> (seed: u64)
    ensures
        seed == seed_of(timestamp),
        seed != 0,
{
    let ts = match timestamp {
        Ok(t) => t,
        Err(_) => 42,
    };
    if ts == 0 {
        42
    } else {
        ts
    }
}

/// The state to fill from: the stored state, or, when none was stored yet
/// (zero), the seed that `seed` gives, which is asked for only then.
pub fn start_state<F: FnOnce() -> u64>(stored: u64, seed: F) -> (state: u64)
    requires
        call_requires(seed, ()),
    ensures
        stored != 0 ==> state == stored,
        stored == 0 ==> call_ensures(seed, (), state),
{
    if stored == 0 {
        seed()
    } else {
        stored
    }
}

/// Fills `buf` with pseudo-random bytes from state `state` and returns the
/// state to store for the next call.
pub fn xorshift_fill(state: u64, buf: &mut [u8]) -> (next: u64)
    ensures
        final(buf)@.len() == old(buf)@.len(),
        final(buf)@ == xorshift_bytes(state, old(buf)@.len()),
        next == xorshift_state(state, old(buf)@.len()),
{
    let mut s = state;
    let n = buf.len();
    let mut i: usize = 0;
    while i < n
        invariant
            n == buf@.len(),
            n == old(buf)@.len(),
            i <= n,
            s == xorshift_state(state, i as nat),
            buf@.subrange(0, i as int) == xorshift_bytes(state, i as nat),
        decreases n - i,
    {
        s = s ^ (s << 13u64);
        s = s ^ (s >> 7u64);
        s = s ^ (s << 17u64);
        let ghost before = buf@;
        buf[i] = s as u8;
        assert(buf@.subrange(0, i + 1) =~= before.subrange(0, i as int).push(s as u8));
        i = i + 1;
    }
    assert(buf@.subrange(0, n as int) =~= buf@);
    s
}

/// A step of xorshift64 never reaches zero from a state that is not zero.
pub proof fn lemma_step_nonzero(s: u64)
    requires
        s != 0,
    ensures
        xorshift_step(s) != 0,
{
    assert(s != 0 ==> ((s ^ (s << 13u64)) ^ ((s ^ (s << 13u64)) >> 7u64)) ^ (((s ^ (s
        << 13u64)) ^ ((s ^ (s << 13u64)) >> 7u64)) << 17u64) != 0) by (bit_vector);
}

/// A state that is not zero stays so for any number of steps: a generator
/// that was seeded never falls back to reseeding.
pub proof fn lemma_state_nonzero(s: u64, n: nat)
    requires
        s != 0,
    ensures
        xorshift_state(s, n) != 0,
    decreases n,
{
    if n > 0 {
        lemma_state_nonzero(s, (n - 1) as nat);
        lemma_step_nonzero(xorshift_state(s, (n - 1) as nat));
    }
}

/// Stepping `n` and then `m` times is stepping `n + m` times.
pub proof fn lemma_state_compose(s: u64, n: nat, m: nat)
    ensures
        xorshift_state(xorshift_state(s, n), m) == xorshift_state(s, n + m),
    decreases m,
{
    if m > 0 {
        lemma_state_compose(s, n, (m - 1) as nat);
        assert((n + m - 1) as nat == n + (m - 1) as nat);
    }
}

/// Filling `n` bytes and then, from the state returned, `m` bytes gives the
/// same bytes as filling `n + m` bytes at once.
pub proof fn lemma_fill_compose(s: u64, n: nat, m: nat)
    ensures
        xorshift_bytes(s, n) + xorshift_bytes(xorshift_state(s, n), m) == xorshift_bytes(
            s,
            n + m,
        ),
    decreases m,
{
    if m == 0 {
        assert(xorshift_bytes(s, n) + xorshift_bytes(xorshift_state(s, n), 0) =~= xorshift_bytes(
            s,
            n,
        ));
    } else {
        lemma_fill_compose(s, n, (m - 1) as nat);
        lemma_state_compose(s, n, m);
        assert((n + m - 1) as nat == n + (m - 1) as nat);
        assert(xorshift_bytes(s, n) + xorshift_bytes(xorshift_state(s, n), m) =~= (xorshift_bytes(
            s,
            n,
        ) + xorshift_bytes(xorshift_state(s, n), (m - 1) as nat)).push(
            xorshift_state(xorshift_state(s, n), m) as u8,
        ));
    }
}

} // verus!
